use jotting_pal::bot::{
    conversation_key, help_message, message_ptr, nihongo_keyboard, opening, question_of,
    route_message, scene_keyboard, settings_keyboard, str_eq, starts_with, ButtonAction,
    LanguageModel, Route, TgBotCommand, TgBotInlineButton, TgBotPrompt, DEFAULT_PROMPT,
    NIHONGO_MOCK_SCENE_CAFE_PROMPT, NIHONGO_MOCK_SCENE_PROMPT, NIHONGO_TRANSLATE_PROMPT,
};

#[test]
fn prompt_ids() {
    assert_eq!(TgBotPrompt::Default.id(), "default");
    assert_eq!(TgBotPrompt::NihongoSceneMockClothesShop.id(), "nihongo-scene-mock-clothes-shop");
    assert_eq!(TgBotPrompt::from_id("nihongo-explain"), TgBotPrompt::NihongoExplain);
    assert_eq!(TgBotPrompt::from_id("unknown"), TgBotPrompt::Default);
    assert_eq!(TgBotPrompt::from_id(TgBotPrompt::NihongoSceneMockStreet.id()), TgBotPrompt::NihongoSceneMockStreet);
}

#[test]
fn prompt_texts() {
    assert_eq!(TgBotPrompt::Default.prompt(), DEFAULT_PROMPT);
    assert_eq!(
        TgBotPrompt::NihongoTranslate.prompt(),
        [DEFAULT_PROMPT, NIHONGO_TRANSLATE_PROMPT].join("\n")
    );
    assert_eq!(
        TgBotPrompt::NihongoSceneMockCafe.prompt(),
        [DEFAULT_PROMPT, NIHONGO_MOCK_SCENE_PROMPT, NIHONGO_MOCK_SCENE_CAFE_PROMPT].join("\n")
    );
}

#[test]
fn prompt_openings() {
    assert_eq!(opening(TgBotPrompt::Default), None);
    assert_eq!(opening(TgBotPrompt::NihongoSceneMockCafe), Some("カフェでいます"));
}

#[test]
fn buttons_ids_titles() {
    assert_eq!(TgBotInlineButton::SettingsLMGPT35Turbo16K.id(), "SettingsLMGPT35Turbo16K");
    assert_eq!(TgBotInlineButton::NihongoSceneMockGoBack.title(), "戻る");
    assert_eq!(TgBotInlineButton::SettingsLMGPT4.title(), "gpt4");
    assert_eq!(
        TgBotInlineButton::from_id("NihongoSceneMockCafe"),
        Ok(TgBotInlineButton::NihongoSceneMockCafe)
    );
    let e = TgBotInlineButton::from_id("Nope").unwrap_err();
    assert_eq!(e.id, "Nope");
}

#[test]
fn button_actions() {
    assert_eq!(
        TgBotInlineButton::NihongoTranslate.action(),
        ButtonAction::StartConversation(TgBotPrompt::NihongoTranslate)
    );
    assert_eq!(TgBotInlineButton::NihongoSceneMock.action(), ButtonAction::ShowScenes);
    assert_eq!(TgBotInlineButton::NihongoSceneMockGoBack.action(), ButtonAction::ShowNihongoMenu);
    assert_eq!(
        TgBotInlineButton::SettingsLMGPT35Turbo.action(),
        ButtonAction::UseModel(LanguageModel::Gpt35Turbo)
    );
}

#[test]
fn keyboards() {
    let k = nihongo_keyboard();
    assert_eq!(k.len(), 2);
    assert_eq!(k[0], vec![TgBotInlineButton::NihongoTranslate, TgBotInlineButton::NihongoExplain]);
    let s = scene_keyboard();
    assert_eq!(s.len(), 6);
    assert_eq!(s[5], vec![TgBotInlineButton::NihongoSceneMockGoBack]);
    let m = settings_keyboard();
    assert_eq!(m[1], vec![TgBotInlineButton::SettingsLMGPT35Turbo16K]);
}

#[test]
fn language_models() {
    assert_eq!(LanguageModel::from_setting(Some("gpt4")), LanguageModel::Gpt4);
    assert_eq!(LanguageModel::from_setting(Some("gpt3.5-turbo")), LanguageModel::Gpt35Turbo);
    assert_eq!(LanguageModel::from_setting(Some("other")), LanguageModel::Gpt35Turbo16K);
    assert_eq!(LanguageModel::from_setting(None), LanguageModel::Gpt35Turbo16K);
    assert_eq!(LanguageModel::Gpt35Turbo16K.name(), "gpt3.5-turbo-16k");
}

#[test]
fn commands() {
    assert_eq!(
        TgBotCommand::root_commands(),
        vec![TgBotCommand::Ask, TgBotCommand::Nihongo, TgBotCommand::Settings, TgBotCommand::Help]
    );
    assert_eq!(TgBotCommand::Ask.text(), "/ask ask any questions");
    assert_eq!(TgBotCommand::Settings.command(), "settings");
}

#[test]
fn help_text() {
    assert_eq!(
        help_message("Hi! I'm you jotting pal."),
        "Hi! I'm you jotting pal. Available commands:\n/ask ask any questions\n/nihongo learn japanese by sentences and questions\n/settings adjust settings of the bot\n/help show help messages"
    );
}

#[test]
fn routing() {
    assert_eq!(route_message(Some("anything"), true), Route::Ask);
    assert_eq!(route_message(Some("/ask why"), false), Route::Ask);
    assert_eq!(route_message(Some("/nihongo"), false), Route::Nihongo);
    assert_eq!(route_message(Some("/settings now"), false), Route::Settings);
    assert_eq!(route_message(Some("hello"), false), Route::Help);
    assert_eq!(route_message(None, true), Route::Help);
}

#[test]
fn questions() {
    assert_eq!(question_of("/ask what is it", false), Some("what is it"));
    assert_eq!(question_of("/ask what", true), Some("what"));
    assert_eq!(question_of("plain reply", true), Some("plain reply"));
    assert_eq!(question_of("/ask", false), None);
}

#[test]
fn keys() {
    assert_eq!(message_ptr(-100123, 42), "ptr---100123-42");
    assert_eq!(message_ptr(0, 7), "ptr--0-7");
    assert_eq!(message_ptr(i64::MIN, i32::MAX), format!("ptr--{}-{}", i64::MIN, i32::MAX));
    assert_eq!(conversation_key("ptr--1-2"), "ctx--ptr--1-2");
}

#[test]
fn string_helpers() {
    assert!(str_eq("abc", "abc"));
    assert!(!str_eq("abc", "abd"));
    assert!(starts_with("/ask x", "/ask"));
    assert!(!starts_with("/as", "/ask"));
}
