//! Checks of the chat-channel setup screens.

use stemcell_tui::channel_setup::{
    api_error_message, chat_id_input, detect_chat_id, detected_user_id, discord_channel_id, own_id_error,
    parse_i64, parse_u64, telegram_send_error, telegram_token_error, updates_failed_message,
    whatsapp_jid_text, BotUpdate, ChatIdInput,
};

#[test]
fn integers_parse_as_str_parse_does() {
    for s in ["0", "42", "-7", "+9", "9223372036854775807", "-9223372036854775808", "", "-", "+", "1a", " 1", "9223372036854775808", "--1"] {
        assert_eq!(parse_i64(s), s.parse::<i64>().ok(), "i64 {s:?}");
    }
    for s in ["0", "18446744073709551615", "18446744073709551616", "-1", "+5", "", "x"] {
        assert_eq!(parse_u64(s), s.parse::<u64>().ok(), "u64 {s:?}");
    }
}

#[test]
fn token_errors_are_explained() {
    assert_eq!(
        telegram_token_error("Api error: Unauthorized"),
        "Invalid bot token. Make sure you copied the full token from @BotFather."
    );
    assert_eq!(
        telegram_token_error("status 403"),
        "Telegram rejected this token (Forbidden). Check you copied it correctly."
    );
    assert_eq!(
        telegram_token_error("Not Found"),
        "Token not recognized by Telegram. It should look like 123456789:ABCdef..."
    );
    assert_eq!(telegram_token_error("timeout"), "Failed to verify bot token: timeout");
}

#[test]
fn chat_id_is_typed_or_detected() {
    assert_eq!(chat_id_input("  "), ChatIdInput::Detect);
    assert_eq!(chat_id_input(" 12345 "), ChatIdInput::Typed(12345));
    assert_eq!(chat_id_input("-100200"), ChatIdInput::Typed(-100200));
    assert_eq!(
        chat_id_input(" abc "),
        ChatIdInput::Invalid("Invalid chat ID 'abc': must be a numeric ID.".to_string())
    );
    let updates = [
        BotUpdate { message_chat: Some(1), from_bot: false },
        BotUpdate { message_chat: Some(2), from_bot: false },
        BotUpdate { message_chat: Some(3), from_bot: true },
        BotUpdate { message_chat: None, from_bot: false },
    ];
    assert_eq!(detect_chat_id(&updates), Ok(2));
    let err = detect_chat_id(&updates[2..]).unwrap_err();
    assert!(err.starts_with("No messages found for this bot yet."));
    assert!(err.ends_with("will be auto-detected."));
    assert_eq!(detected_user_id("", 2), Some("2".to_string()));
    assert_eq!(detected_user_id("5", 5), None);
}

#[test]
fn own_id_and_send_errors() {
    assert!(own_id_error(777, 777).unwrap().starts_with("That's the bot's own ID, not yours."));
    assert_eq!(own_id_error(777, 778), None);
    let m = telegram_send_error("Bad Request: chat not found", -42, Some("mybot"));
    assert!(m.starts_with("Chat ID -42 not found."));
    assert!(m.contains("find @mybot,"));
    let m = telegram_send_error("chat not found", 42, None);
    assert!(m.contains("find @your_bot,"));
    assert_eq!(
        telegram_send_error("Forbidden: bot was blocked by the user", 1, None),
        "You blocked the bot. Unblock it in Telegram and retry."
    );
    assert_eq!(telegram_send_error("boom", 1, None), "Telegram API error: boom");
    assert!(updates_failed_message("net down").starts_with("Could not check for messages (getUpdates failed: net down)."));
}

#[test]
fn discord_whatsapp_and_api_errors() {
    assert_eq!(discord_channel_id("123456789012345678"), Ok(123456789012345678));
    assert_eq!(discord_channel_id("general"), Err("Invalid channel ID: general".to_string()));
    assert_eq!(whatsapp_jid_text("+15551234"), Ok("15551234@s.whatsapp.net".to_string()));
    assert_eq!(whatsapp_jid_text(""), Err("No phone number provided.".to_string()));
    assert_eq!(api_error_message("Slack", "invalid_auth"), "Slack API error: invalid_auth");
}

#[test]
fn reported_chat_id_reads_back() {
    for id in [0i64, 7, -42, i64::MAX, i64::MIN] {
        let text = detected_user_id("", id).unwrap();
        assert_eq!(chat_id_input(&text), ChatIdInput::Typed(id));
    }
}
