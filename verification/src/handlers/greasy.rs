//! Greasy's messages that collect enough dentheads get a kekw and a reply.
use vstd::prelude::*;
use crate::text::{chars_of, contains_chars, has_substring, lowercase, seq_eq, to_lowercase};

verus! {

pub struct Greasy;

/// Dentheads a message may collect before the bot responds.
pub const MAX_HEADDENTS: u64 = 3;

/// The emoji the bot reacts with.
pub const REACTION_STRING: &'static str = "<:kekw:841395318674292767>";

/// The emoji that counts against a message.
pub const DENTHEAD: &'static str = "<:denthead:1377314774219489520>";

/// A reaction on a message: its emoji as displayed, whether the bot made it, and
/// how many reacted.
#[derive(Debug, Clone)]
pub struct MessageReaction {
    pub emoji: String,
    pub me: bool,
    pub count: u64,
}

/// The reactions that count: dentheads, and the bot's own.
pub open spec fn counts(r: MessageReaction) -> bool {
    r.emoji@ == "<:denthead:1377314774219489520>"@ || r.me
}

/// The total of the counting reactions.
pub open spec fn dent_total(reactions: Seq<MessageReaction>) -> int
    decreases reactions.len(),
{
    if reactions.len() == 0 {
        0
    } else {
        dent_total(reactions.drop_last()) + if counts(reactions.last()) {
            reactions.last().count as int
        } else {
            0
        }
    }
}

/// The bot reacted to the message already.
pub open spec fn already_reacted_spec(reactions: Seq<MessageReaction>) -> bool {
    exists|i: int| 0 <= i < reactions.len() && (#[trigger] reactions[i]).me
}

/// A running total stays within the whole.
proof fn lemma_dent_total_prefix(reactions: Seq<MessageReaction>, i: int)
    requires
        0 <= i <= reactions.len(),
    ensures
        0 <= dent_total(reactions.take(i)) <= dent_total(reactions),
    decreases reactions.len() - i,
{
    if i < reactions.len() {
        lemma_dent_total_prefix(reactions, i + 1);
        assert(reactions.take(i + 1).drop_last() =~= reactions.take(i));
    } else {
        assert(reactions.take(i) =~= reactions);
    }
    lemma_dent_total_nonneg(reactions.take(i));
}

/// Totals are never negative.
proof fn lemma_dent_total_nonneg(reactions: Seq<MessageReaction>)
    ensures
        dent_total(reactions) >= 0,
    decreases reactions.len(),
{
    if reactions.len() > 0 {
        lemma_dent_total_nonneg(reactions.drop_last());
    }
}

impl Greasy {
    /// Whether an author name contains "greasy", in any case.
    pub fn is_greasy(author_name: &str) -> (b: bool)
        ensures
            b == has_substring(lowercase(author_name@), "greasy"@),
    {
        let l = to_lowercase(author_name);
        let v = chars_of(l.as_str());
        let g = chars_of("greasy");
        contains_chars(&v, &g)
    }

    /// Whether the dentheads and the bot's own reactions add up to more than
    /// [`MAX_HEADDENTS`].
    pub fn has_enough_dents(reactions: &Vec<MessageReaction>) -> (b: bool)
        requires
            dent_total(reactions@) <= u64::MAX,
        ensures
            b == (dent_total(reactions@) > MAX_HEADDENTS),
    {
        let dent = chars_of(DENTHEAD);
        proof {
            reveal_strlit("<:denthead:1377314774219489520>");
        }
        let mut total: u64 = 0;
        let mut i: usize = 0;
        assert(reactions@.take(0) =~= Seq::<MessageReaction>::empty());
        while i < reactions.len()
            invariant
                i <= reactions.len(),
                dent@ == "<:denthead:1377314774219489520>"@,
                dent_total(reactions@) <= u64::MAX,
                total == dent_total(reactions@.take(i as int)),
            decreases reactions.len() - i,
        {
            proof {
                assert(reactions@.take(i + 1).drop_last() =~= reactions@.take(i as int));
                lemma_dent_total_prefix(reactions@, i + 1);
            }
            let e = chars_of(reactions[i].emoji.as_str());
            if seq_eq(&e, &dent) || reactions[i].me {
                total = total + reactions[i].count;
            }
            i += 1;
        }
        assert(reactions@.take(i as int) =~= reactions@);
        total > MAX_HEADDENTS
    }

    /// Whether the bot reacted to the message already.
    pub fn already_reacted(reactions: &Vec<MessageReaction>) -> (b: bool)
        ensures
            b == already_reacted_spec(reactions@),
    {
        let mut i: usize = 0;
        while i < reactions.len()
            invariant
                i <= reactions.len(),
                forall|j: int| 0 <= j < i ==> !(#[trigger] reactions@[j]).me,
            decreases reactions.len() - i,
        {
            if reactions[i].me {
                return true;
            }
            i += 1;
        }
        false
    }

    /// Whether the bot answers a reaction on a message: its author is greasy, the bot
    /// has not reacted yet, and there are enough dentheads.
    pub fn should_respond(author_name: &str, reactions: &Vec<MessageReaction>) -> (b: bool)
        requires
            dent_total(reactions@) <= u64::MAX,
        ensures
            b == (has_substring(lowercase(author_name@), "greasy"@) && !already_reacted_spec(reactions@)
                && dent_total(reactions@) > MAX_HEADDENTS),
    {
        Greasy::is_greasy(author_name) && !Greasy::already_reacted(reactions) && Greasy::has_enough_dents(
            reactions,
        )
    }

    /// The reply once the bot reacted.
    pub fn message() -> (s: String)
        ensures
            s@ == "i hate u"@,
    {
        String::from_str("i hate u")
    }
}

} // verus!
