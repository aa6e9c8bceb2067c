//! The checks of the chat-channel setup screens: reading the Telegram
//! chat id (typed, or found among the bot's updates), the error texts shown
//! for the Telegram, Discord, Slack and Trello calls, and the WhatsApp
//! address of a phone number. The network calls are made by the caller,
//! which hands their outcome in as plain values.

use vstd::prelude::*;
use crate::history::decimal_digits;
use crate::text::{chars_contain_sub, push_chars, seq_contains_sub, str_chars, string_from_chars, trim_chars, trim_ws};
use crate::tool_description::decimal;

verus! {

pub open spec fn is_digit(c: char) -> bool {
    '0' <= c && c <= '9'
}

pub open spec fn all_digits(d: Seq<char>) -> bool {
    forall|i: int| 0 <= i < d.len() ==> is_digit(#[trigger] d[i])
}

/// The number written by the decimal digits `d`.
pub open spec fn digits_value(d: Seq<char>) -> nat
    decreases d.len(),
{
    if d.len() == 0 {
        0
    } else {
        digits_value(d.drop_last()) * 10 + (d.last() as nat - '0' as nat) as nat
    }
}

/// The integer `str::parse` reads from `s`: an optional sign (`-` only when
/// `signed`) and at least one decimal digit, nothing else.
pub open spec fn parse_int_spec(s: Seq<char>, signed: bool) -> Option<int> {
    let neg = signed && s.len() > 0 && s[0] == '-';
    let body = if s.len() > 0 && (s[0] == '+' || neg) { s.drop_first() } else { s };
    if body.len() == 0 || !all_digits(body) {
        None
    } else if neg {
        Some(-(digits_value(body) as int))
    } else {
        Some(digits_value(body) as int)
    }
}

/// `s` read as an `i64` (`None` when it is not one or out of range).
pub open spec fn parse_i64_spec(s: Seq<char>) -> Option<i64> {
    match parse_int_spec(s, true) {
        Some(v) => if i64::MIN <= v <= i64::MAX { Some(v as i64) } else { None },
        None => None,
    }
}

/// `s` read as a `u64` (`None` when it is not one or out of range).
pub open spec fn parse_u64_spec(s: Seq<char>) -> Option<u64> {
    match parse_int_spec(s, false) {
        Some(v) => if 0 <= v <= u64::MAX { Some(v as u64) } else { None },
        None => None,
    }
}

proof fn lemma_digits_value_grows(d: Seq<char>, i: int, j: int)
    requires
        0 <= i <= j <= d.len(),
        all_digits(d),
    ensures
        digits_value(d.take(i)) <= digits_value(d.take(j)),
    decreases j - i,
{
    if i < j {
        lemma_digits_value_grows(d, i, j - 1);
        assert(d.take(j).drop_last() =~= d.take(j - 1));
        assert(is_digit(d[j - 1]));
    }
}

/// The value of the digits `body` (all digits, at least one), when it is
/// at most `limit`.
fn digits_up_to(body: &[char], limit: u128) -> (r: Option<u128>)
    requires
        all_digits(body@),
        limit <= u64::MAX as u128 + 1,
    ensures
        match r {
            Some(v) => v == digits_value(body@) && v <= limit,
            None => digits_value(body@) > limit,
        },
{
    let mut v: u128 = 0;
    let mut i: usize = 0;
    assert(body@.take(0) =~= Seq::<char>::empty());
    while i < body.len()
        invariant
            i <= body@.len(),
            all_digits(body@),
            limit <= u64::MAX as u128 + 1,
            v == digits_value(body@.take(i as int)),
            v <= limit,
        decreases body@.len() - i,
    {
        assert(body@.take(i as int + 1).drop_last() =~= body@.take(i as int));
        assert(is_digit(body@[i as int]));
        let d = (body[i] as u32 - '0' as u32) as u128;
        let next = v * 10 + d;
        if next > limit {
            proof {
                lemma_digits_value_grows(body@, i as int + 1, body@.len() as int);
                assert(body@.take(body@.len() as int) =~= body@);
            }
            return None;
        }
        v = next;
        i += 1;
    }
    assert(body@.take(body@.len() as int) =~= body@);
    Some(v)
}

fn all_digits_exec(body: &[char]) -> (b: bool)
    ensures
        b == all_digits(body@),
{
    let mut i: usize = 0;
    while i < body.len()
        invariant
            i <= body@.len(),
            forall|k: int| 0 <= k < i ==> is_digit(#[trigger] body@[k]),
        decreases body@.len() - i,
    {
        if !('0' <= body[i] && body[i] <= '9') {
            assert(!is_digit(body@[i as int]));
            return false;
        }
        i += 1;
    }
    true
}

/// Splits off a leading sign: whether it is a minus, and the rest.
fn split_sign(s: &[char], signed: bool) -> (r: (bool, Vec<char>))
    ensures
        r.0 == (signed && s@.len() > 0 && s@[0] == '-'),
        r.1@ == if s@.len() > 0 && (s@[0] == '+' || r.0) { s@.drop_first() } else { s@ },
{
    let neg = signed && s.len() > 0 && s[0] == '-';
    let mut out: Vec<char> = Vec::new();
    let start: usize = if s.len() > 0 && (s[0] == '+' || neg) { 1 } else { 0 };
    let mut j: usize = start;
    while j < s.len()
        invariant
            start <= j <= s@.len(),
            start <= 1,
            out@ == s@.subrange(start as int, j as int),
        decreases s@.len() - j,
    {
        out.push(s[j]);
        assert(s@.subrange(start as int, j as int + 1) =~= s@.subrange(start as int, j as int).push(s@[j as int]));
        j += 1;
    }
    assert(out@ =~= s@.skip(start as int));
    (neg, out)
}

/// `s` read as an `i64`, as `str::parse::<i64>` does.
pub fn parse_i64(s: &str) -> (r: Option<i64>)
    ensures
        r == parse_i64_spec(s@),
{
    let chars = str_chars(s);
    let (neg, body) = split_sign(&chars, true);
    if body.len() == 0 || !all_digits_exec(&body) {
        return None;
    }
    let limit: u128 = if neg { 9223372036854775808 } else { 9223372036854775807 };
    match digits_up_to(&body, limit) {
        None => None,
        Some(v) => if neg {
            if v == 9223372036854775808 {
                Some(i64::MIN)
            } else {
                Some(-(v as i64))
            }
        } else {
            Some(v as i64)
        },
    }
}

/// `s` read as a `u64`, as `str::parse::<u64>` does.
pub fn parse_u64(s: &str) -> (r: Option<u64>)
    ensures
        r == parse_u64_spec(s@),
{
    let chars = str_chars(s);
    let (_neg, body) = split_sign(&chars, false);
    if body.len() == 0 || !all_digits_exec(&body) {
        return None;
    }
    match digits_up_to(&body, 18446744073709551615) {
        None => None,
        Some(v) => Some(v as u64),
    }
}

/// Decimal text of an `i64`.
pub open spec fn signed_decimal(v: i64) -> Seq<char> {
    if v < 0 { seq!['-'] + decimal((-(v as int)) as nat) } else { decimal(v as nat) }
}

fn signed_decimal_exec(v: i64) -> (r: Vec<char>)
    ensures
        r@ == signed_decimal(v),
{
    if v < 0 {
        let m: u64 = if v == i64::MIN { 9223372036854775808 } else { (-v) as u64 };
        let mut out = vec!['-'];
        push_chars(&mut out, &decimal_digits(m));
        out
    } else {
        decimal_digits(v as u64)
    }
}

/// The message for a failed check of a Telegram bot token, from the error
/// text of the call.
pub open spec fn token_error_spec(msg: Seq<char>) -> Seq<char> {
    if seq_contains_sub(msg, "Unauthorized"@) || seq_contains_sub(msg, "401"@) {
        "Invalid bot token. Make sure you copied the full token from @BotFather."@
    } else if seq_contains_sub(msg, "Forbidden"@) || seq_contains_sub(msg, "403"@) {
        "Telegram rejected this token (Forbidden). Check you copied it correctly."@
    } else if seq_contains_sub(msg, "Not Found"@) || seq_contains_sub(msg, "404"@) {
        "Token not recognized by Telegram. It should look like 123456789:ABCdef..."@
    } else {
        "Failed to verify bot token: "@ + msg
    }
}

/// The message for a failed check of a Telegram bot token.
pub fn telegram_token_error(msg: &str) -> (r: String)
    ensures
        r@ == token_error_spec(msg@),
{
    let m = str_chars(msg);
    if chars_contain_sub(&m, &str_chars("Unauthorized")) || chars_contain_sub(&m, &str_chars("401")) {
        string_from_chars(&str_chars("Invalid bot token. Make sure you copied the full token from @BotFather."))
    } else if chars_contain_sub(&m, &str_chars("Forbidden")) || chars_contain_sub(&m, &str_chars("403")) {
        string_from_chars(&str_chars("Telegram rejected this token (Forbidden). Check you copied it correctly."))
    } else if chars_contain_sub(&m, &str_chars("Not Found")) || chars_contain_sub(&m, &str_chars("404")) {
        string_from_chars(&str_chars("Token not recognized by Telegram. It should look like 123456789:ABCdef..."))
    } else {
        let mut out = str_chars("Failed to verify bot token: ");
        push_chars(&mut out, &m);
        string_from_chars(&out)
    }
}

/// How the Telegram chat id is obtained from what was typed.
#[derive(Clone, Debug, PartialEq, Eq)]
pub enum ChatIdInput {
    /// Nothing typed: look for it among the bot's updates.
    Detect,
    /// The typed id.
    Typed(i64),
    /// Not a number: this message.
    Invalid(String),
}

/// How the chat id is obtained from the typed text `user_id`: detected
/// when only whitespace was typed, else the trimmed text read as an `i64`.
pub fn chat_id_input(user_id: &str) -> (r: ChatIdInput)
    ensures
        ({
            let t = trim_ws(user_id@);
            if t.len() == 0 {
                r == ChatIdInput::Detect
            } else {
                match parse_i64_spec(t) {
                    Some(v) => r == ChatIdInput::Typed(v),
                    None => r matches ChatIdInput::Invalid(m) && m@ == "Invalid chat ID '"@ + t + "': must be a numeric ID."@,
                }
            }
        }),
{
    let t = trim_chars(&str_chars(user_id));
    if t.len() == 0 {
        return ChatIdInput::Detect;
    }
    let ts = string_from_chars(&t);
    match parse_i64(ts.as_str()) {
        Some(v) => ChatIdInput::Typed(v),
        None => {
            let mut out = str_chars("Invalid chat ID '");
            push_chars(&mut out, &t);
            push_chars(&mut out, &str_chars("': must be a numeric ID."));
            ChatIdInput::Invalid(string_from_chars(&out))
        },
    }
}

/// One update the bot received: the chat of a message (`None` for other
/// updates) and whether its sender is a bot.
#[derive(Clone, Copy, Debug, PartialEq, Eq, Structural)]
pub struct BotUpdate {
    pub message_chat: Option<i64>,
    pub from_bot: bool,
}

/// The chat of the newest message not sent by a bot, among the first `n`
/// updates (oldest first).
pub open spec fn newest_human_chat(updates: Seq<BotUpdate>, n: int) -> Option<i64>
    decreases n,
{
    if n <= 0 || n > updates.len() {
        None
    } else if updates[n - 1].message_chat is Some && !updates[n - 1].from_bot {
        updates[n - 1].message_chat
    } else {
        newest_human_chat(updates, n - 1)
    }
}

/// The chat id found among the bot's updates: the chat of the newest
/// message from a person, or the message asking to write to the bot first.
pub fn detect_chat_id(updates: &[BotUpdate]) -> (r: Result<i64, String>)
    ensures
        match newest_human_chat(updates@, updates@.len() as int) {
            Some(id) => r == Ok::<i64, String>(id),
            None => r matches Err(m) && m@ == "No messages found for this bot yet. Message your bot on                              Telegram first (send any text), then retry. Your chat ID                              will be auto-detected."@,
        },
{
    let mut n: usize = updates.len();
    while n > 0
        invariant
            n <= updates@.len(),
            newest_human_chat(updates@, updates@.len() as int) == newest_human_chat(updates@, n as int),
        decreases n,
    {
        let u = updates[n - 1];
        if u.message_chat.is_some() && !u.from_bot {
            return Ok(u.message_chat.unwrap());
        }
        n -= 1;
    }
    Err(string_from_chars(&str_chars("No messages found for this bot yet. Message your bot on                              Telegram first (send any text), then retry. Your chat ID                              will be auto-detected.")))
}

/// The message when the bot's updates could not be read.
pub fn updates_failed_message(error: &str) -> (r: String)
    ensures
        r@ == "Could not check for messages (getUpdates failed: "@ + error@ + ").                      Paste your numeric chat ID manually.                      Message @userinfobot on Telegram to get it."@,
{
    let mut out = str_chars("Could not check for messages (getUpdates failed: ");
    push_chars(&mut out, &str_chars(error));
    push_chars(&mut out, &str_chars(").                      Paste your numeric chat ID manually.                      Message @userinfobot on Telegram to get it."));
    string_from_chars(&out)
}

/// The message when the chat id is the bot's own id (`bot_id` read as an
/// `i64`, as the check does), or `None` when it is another id.
pub fn own_id_error(bot_id: u64, user_id: i64) -> (r: Option<String>)
    ensures
        (bot_id as i64 == user_id) ==> (r matches Some(m) && m@ == "That's the bot's own ID, not yours. Open Telegram, message              @userinfobot, and paste the numeric ID it replies with."@),
        (bot_id as i64 != user_id) ==> r is None,
{
    if bot_id as i64 == user_id {
        Some(string_from_chars(&str_chars("That's the bot's own ID, not yours. Open Telegram, message              @userinfobot, and paste the numeric ID it replies with.")))
    } else {
        None
    }
}

/// The message for a failed greeting to chat `user_id` from the bot named
/// `username` (if it has one), from the call's error text.
pub open spec fn send_error_spec(msg: Seq<char>, user_id: i64, username: Option<Seq<char>>) -> Seq<char> {
    if seq_contains_sub(msg, "chat not found"@) {
        "Chat ID "@ + signed_decimal(user_id) + " not found. You must message your bot first                      so it can reply to you. Open Telegram, find @"@ + (match username {
            Some(u) => u,
            None => "your_bot"@,
        }) + ",                      send it any message, then retry."@
    } else if seq_contains_sub(msg, "bot was blocked"@) {
        "You blocked the bot. Unblock it in Telegram and retry."@
    } else {
        "Telegram API error: "@ + msg
    }
}

/// The message for a failed greeting (see `send_error_spec`).
pub fn telegram_send_error(msg: &str, user_id: i64, username: Option<&str>) -> (r: String)
    ensures
        r@ == send_error_spec(msg@, user_id, match username {
            Some(u) => Some(u@),
            None => None,
        }),
{
    let m = str_chars(msg);
    if chars_contain_sub(&m, &str_chars("chat not found")) {
        let mut out = str_chars("Chat ID ");
        push_chars(&mut out, &signed_decimal_exec(user_id));
        push_chars(&mut out, &str_chars(" not found. You must message your bot first                      so it can reply to you. Open Telegram, find @"));
        match username {
            Some(u) => push_chars(&mut out, &str_chars(u)),
            None => push_chars(&mut out, &str_chars("your_bot")),
        }
        push_chars(&mut out, &str_chars(",                      send it any message, then retry."));
        string_from_chars(&out)
    } else if chars_contain_sub(&m, &str_chars("bot was blocked")) {
        string_from_chars(&str_chars("You blocked the bot. Unblock it in Telegram and retry."))
    } else {
        let mut out = str_chars("Telegram API error: ");
        push_chars(&mut out, &m);
        string_from_chars(&out)
    }
}

/// The chat id reported back as detected: only when it was detected.
pub fn detected_user_id(user_id_typed: &str, user_id: i64) -> (r: Option<String>)
    ensures
        trim_ws(user_id_typed@).len() == 0 ==> (r matches Some(t) && t@ == signed_decimal(user_id)),
        trim_ws(user_id_typed@).len() > 0 ==> r is None,
{
    let t = trim_chars(&str_chars(user_id_typed));
    if t.len() == 0 {
        Some(string_from_chars(&signed_decimal_exec(user_id)))
    } else {
        None
    }
}

/// A Discord channel id as typed: a `u64`, or the message naming the text.
pub fn discord_channel_id(text: &str) -> (r: Result<u64, String>)
    ensures
        match parse_u64_spec(text@) {
            Some(v) => r == Ok::<u64, String>(v),
            None => r matches Err(m) && m@ == "Invalid channel ID: "@ + text@,
        },
{
    match parse_u64(text) {
        Some(v) => Ok(v),
        None => {
            let mut out = str_chars("Invalid channel ID: ");
            push_chars(&mut out, &str_chars(text));
            Err(string_from_chars(&out))
        },
    }
}

/// `s` without its leading `+` signs.
pub open spec fn trim_plus(s: Seq<char>) -> Seq<char>
    decreases s.len(),
{
    if s.len() > 0 && s[0] == '+' {
        trim_plus(s.drop_first())
    } else {
        s
    }
}

/// The WhatsApp address of a phone number: the number without leading `+`
/// at `s.whatsapp.net`; an empty number is refused.
pub fn whatsapp_jid_text(phone: &str) -> (r: Result<String, String>)
    ensures
        phone@.len() == 0 ==> (r matches Err(m) && m@ == "No phone number provided."@),
        phone@.len() > 0 ==> (r matches Ok(j) && j@ == trim_plus(phone@) + "@s.whatsapp.net"@),
{
    let p = str_chars(phone);
    if p.len() == 0 {
        return Err(string_from_chars(&str_chars("No phone number provided.")));
    }
    let mut i: usize = 0;
    assert(p@.skip(0) =~= p@);
    while i < p.len() && p[i] == '+'
        invariant
            i <= p@.len(),
            trim_plus(p@.skip(i as int)) == trim_plus(p@),
        decreases p@.len() - i,
    {
        assert(p@.skip(i as int).drop_first() =~= p@.skip(i as int + 1));
        i += 1;
    }
    let mut out: Vec<char> = Vec::new();
    let mut j: usize = i;
    while j < p.len()
        invariant
            i <= j <= p@.len(),
            out@ == p@.subrange(i as int, j as int),
        decreases p@.len() - j,
    {
        out.push(p[j]);
        assert(p@.subrange(i as int, j as int + 1) =~= p@.subrange(i as int, j as int).push(p@[j as int]));
        j += 1;
    }
    assert(out@ =~= p@.skip(i as int));
    push_chars(&mut out, &str_chars("@s.whatsapp.net"));
    Ok(string_from_chars(&out))
}

/// The message for a failed call to a channel's service: the service's
/// label (`Discord`, `Slack`, `Trello`, ...) and the call's error text.
pub fn api_error_message(service: &str, error: &str) -> (r: String)
    ensures
        r@ == service@ + " API error: "@ + error@,
{
    let mut out = str_chars(service);
    push_chars(&mut out, &str_chars(" API error: "));
    push_chars(&mut out, &str_chars(error));
    string_from_chars(&out)
}

proof fn lemma_digit_char_value(x: int)
    requires
        0 <= x < 10,
    ensures
        is_digit(crate::tool_description::digit_char(x)),
        crate::tool_description::digit_char(x) as nat - '0' as nat == x,
{
}

proof fn lemma_decimal_digits(n: nat)
    ensures
        decimal(n).len() > 0,
        all_digits(decimal(n)),
        digits_value(decimal(n)) == n,
    decreases n,
{
    if n < 10 {
        lemma_digit_char_value(n as int);
        assert(decimal(n) == seq![crate::tool_description::digit_char(n as int)]);
        assert(decimal(n).drop_last() =~= Seq::<char>::empty());
        assert(digits_value(decimal(n).drop_last()) == 0);
        assert(decimal(n).last() == crate::tool_description::digit_char(n as int));
        assert(digits_value(decimal(n)) == 0 * 10 + n);
    } else {
        lemma_decimal_digits(n / 10);
        lemma_digit_char_value((n % 10) as int);
        let d = decimal(n);
        assert(d == decimal(n / 10) + seq![crate::tool_description::digit_char((n % 10) as int)]);
        assert(d.drop_last() =~= decimal(n / 10));
        assert forall|i: int| 0 <= i < d.len() implies is_digit(#[trigger] d[i]) by {
            if i < decimal(n / 10).len() {
                assert(d[i] == decimal(n / 10)[i]);
            }
        }
        assert(d.last() == crate::tool_description::digit_char((n % 10) as int));
        assert(digits_value(d) == digits_value(decimal(n / 10)) * 10 + n % 10);
        assert((n / 10) * 10 + n % 10 == n) by (nonlinear_arith);
    }
}

/// The decimal text of an id reads back as the same id: a detected chat id
/// reported to the user can be typed in again.
pub proof fn law_chat_id_text_reads_back(v: i64)
    ensures
        parse_i64_spec(signed_decimal(v)) == Some(v),
{
    if v < 0 {
        let m = (-(v as int)) as nat;
        lemma_decimal_digits(m);
        let s = seq!['-'] + decimal(m);
        assert(s.drop_first() =~= decimal(m));
        assert(s[0] == '-');
    } else {
        lemma_decimal_digits(v as nat);
        let d = decimal(v as nat);
        assert(is_digit(d[0]));
    }
}

} // verus!
