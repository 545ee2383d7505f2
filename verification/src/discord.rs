//! What the chat platform's library computes for the engine: the escaping of
//! text and the reading of mentions. Nothing in this file is proved; each
//! function says what it takes on trust.

use vstd::prelude::*;

verus! {

/// What `MessageBuilder::push_safe` appends for `content`.
pub uninterp spec fn safe_text(content: Seq<char>) -> Seq<char>;

/// What `MessageBuilder::push_bold_safe` appends for `content`.
pub uninterp spec fn bold_safe_text(content: Seq<char>) -> Seq<char>;

/// What `MessageBuilder::push_mono_safe` appends for `content`.
pub uninterp spec fn mono_safe_text(content: Seq<char>) -> Seq<char>;

/// The id that a mention of a user holds: the number between `<@` or `<@!`
/// and the last character. A text of fewer than four characters, or with
/// another start, holds none.
pub open spec fn user_mention_id(mention: Seq<char>) -> Option<u64> {
    if mention.len() < 4 || mention[0] != '<' || mention[1] != '@' {
        None
    } else if mention[2] == '!' {
        snowflake_id(mention.subrange(3, mention.len() - 1))
    } else {
        snowflake_id(mention.subrange(2, mention.len() - 1))
    }
}

/// The id that a mention of a role holds: the number between `<@&` and the
/// last character. A text of fewer than four characters, or with another
/// start, holds none.
pub open spec fn role_mention_id(mention: Seq<char>) -> Option<u64> {
    if mention.len() < 4 || mention[0] != '<' || mention[1] != '@' || mention[2] != '&' {
        None
    } else {
        snowflake_id(mention.subrange(3, mention.len() - 1))
    }
}

/// The id that `UserId::from_str` of serenity reads from `text`. The ids
/// of roles are read by the same rule.
pub uninterp spec fn snowflake_id(text: Seq<char>) -> Option<u64>;

/// Calls `UserId::from_str` of serenity, which reads a decimal number
/// other than zero. The ids of roles and channels are written and read in
/// the same way. Taken on trust: the result depends on `text` alone.
#[verifier::external_body]
pub(crate) fn parse_snowflake(text: &str) -> (id: Option<u64>)
    ensures
        id == snowflake_id(text@),
{
    text.parse::<serenity::model::id::UserId>().ok().map(|id| id.get())
}

/// Calls `MessageBuilder::push_safe` of serenity on an empty builder: the
/// text with invite links, direction marks and mass mentions defused and
/// `*`, `` ` `` and `_` escaped. Taken on trust: the result depends on
/// `content` alone.
#[verifier::external_body]
pub(crate) fn push_safe(content: &str) -> (out: String)
    ensures
        out@ == safe_text(content@),
{
    serenity::utils::MessageBuilder::new().push_safe(content).build()
}

/// Calls `MessageBuilder::push_bold_safe` of serenity on an empty builder:
/// the defused text between two pairs of asterisks. Taken on trust: the
/// result depends on `content` alone.
#[verifier::external_body]
pub(crate) fn push_bold_safe(content: &str) -> (out: String)
    ensures
        out@ == bold_safe_text(content@),
{
    serenity::utils::MessageBuilder::new().push_bold_safe(content).build()
}

/// Calls `MessageBuilder::push_mono_safe` of serenity on an empty builder:
/// the defused text between two backticks. Taken on trust: the result
/// depends on `content` alone.
#[verifier::external_body]
pub(crate) fn push_mono_safe(content: &str) -> (out: String)
    ensures
        out@ == mono_safe_text(content@),
{
    serenity::utils::MessageBuilder::new().push_mono_safe(content).build()
}

/// Calls `serenity::utils::parse_user_mention`, which reads the id out of
/// `<@id>` or `<@!id>`: a text of fewer than four bytes holds none;
/// otherwise what stands between the start `<@!`, or else `<@`, and the
/// last byte is read as an id. It cuts the last byte off without looking at
/// it, so the text has to end in `>`; with that end, a text of fewer than
/// four characters has fewer than four bytes or another start. Taken on
/// trust.
#[verifier::external_body]
pub(crate) fn parse_user_mention(mention: &str) -> (id: Option<u64>)
    requires
        mention@.len() > 0,
        mention@.last() == '>',
    ensures
        id == user_mention_id(mention@),
{
    serenity::utils::parse_user_mention(mention).map(|id| id.get())
}

/// Calls `serenity::utils::parse_role_mention`, which reads the id out of
/// `<@&id>`: a text of fewer than four bytes, or that does not start with
/// `<@&` and end in `>`, holds none; otherwise what stands between the two
/// is read as an id. Taken on trust.
#[verifier::external_body]
pub(crate) fn parse_role_mention(mention: &str) -> (id: Option<u64>)
    requires
        mention@.len() > 0,
        mention@.last() == '>',
    ensures
        id == role_mention_id(mention@),
{
    serenity::utils::parse_role_mention(mention).map(|id| id.get())
}

} // verus!
