//! The fixed tables of the chat bot: system prompts, inline buttons and
//! commands, and the decisions that pick among them.

use vstd::prelude::*;
use vstd::string::*;

use crate::markdown::string_from_chars;

verus! {

pub const DEFAULT_PROMPT: &'static str = "\nYour name is \"Cheese\" and you are working as a jotting pal to help on Telegram. \nYou can answer questions, help clients learn japanese and show a help message.\nyour creator is Chase Zhang, you are based on OpenAI's ChatGPT.\nYou should double check the fact of your answer carefully before replying a message\nand make sure it is acurate.\nYou should format your answers into markdown format if necessary.\nIf you answer includes codeblocks, please make sure you will specify the name\nof the programming language with proper syntax in markdown format.\n";

pub const NIHONGO_TRANSLATE_PROMPT: &'static str = "\nYou are now helping the user to learn Japanese.\nYou should act as a translate machine and please translate everything the user sent to you into Japanese direcly.\nYou can provide explanation on keywords in the Japanese translation provide pronunciation in hiragana.\nIf the user sent you Japanese, you should translate them into English and correct the user if there is any obvious mistake.\nWhen providing pronunciation of Japanese, please use hiragana or katakana instead of romaji.\n";

pub const NIHONGO_EXPLAIN_PROMPT: &'static str = "\nYou are now helping the user to learn Japanese.\nIf the user sent you a piece of text in Japanese, you should explain the grammar and keywords.\nYou can explain by break down the sentences and provide pronounce annotation in hiragana.\nIf the user ask you a question in English, you should translate it into Japanese and explain your translation.\nYou can also answer the user's chat from your own knowledge.\nYou are encouraged to provide background information of a famous historical place.\nIf you feel there is a better way to say something, feel free to correct the user.\n";

pub const NIHONGO_MOCK_SCENE_PROMPT: &'static str = "\nYou are now helping the users to learn Japanese.\nYou should always speak Japanese in the conversation.\nYou are now in mock conversation mode, in this mode, you should act as a role in a conversation scene.\nWhen the user send you a message, you should reply based on your role.\nIf what the user has sent you is obviously not correct in terms of grammar or usage of words, you can first correct the users and provide an explanation.\nIf you are replying to the user with some rarely used words, please provide the translation of them after the reply.\nIf the user send you a message in English, please tell the user how to express the same meaning in Japanese before replying under your role.\n";

pub const NIHONGO_MOCK_SCENE_CAFE_PROMPT: &'static str = "\nYour role is defined as follow:\nYou are a waiter in a cafe.\nThe cafe provide all kinds of coffee from espresso to pour over.\nThe cafe also sell baked whole beans.\nYou should help the user to order a cup of coffee.\nWhen you are using any Japanese words about origins of coffee, flaver, and other technique about coffee, please emphasize the word with markdown.\n";

pub const NIHONGO_MOCK_SCENE_RESTAURANT_PROMPT: &'static str = "\nYour role is defined as follow:\nYou are a waiter in a restaurant.\nYou are helping the user to order a dish.\nYou can recommend some dishes to the user.\nWhen you are using any Japanese words about food, vegetables, fruit, dishes, spice, flavor and drinks, please semphasize the word with markdown.\n";

pub const NIHONGO_MOCK_SCENE_CLOTHES_SHOP_PROMPT: &'static str = "\nYour role is defined as follow:\nYou are a shopping guide in a clothes shop.\nThe clothes shop sells all kinds of clothes and shoes.\nYou can guide the user per your understanding of the fashion in Japan.\nYou can pretend the shop has a fitting room and let the user try the clothes or shoes.\nWhen you are using any Japanese words about clothes, style, and other fashion related words, please emphasize the word with markdown.\n";

pub const NIHONGO_MOCK_SCENE_STREET_PROMPT: &'static str = "\nYour role is defined as follow:\nYou are a passers-by on the street who have just met the user.\nYou want to help the user know about the city, street and nearby.\nYou can first ask the user about where the user is at and where the user want to go.\nWhen you are using any Japanese words about location, direction and other motion related words, please emphasize the word with markdown. \n";

pub const NIHONGO_MOCK_SCENE_SMALL_TALK_PROMPT: &'static str = "\nYour role is defined as follow:\nYou are a passers-by who have just met the user.\nYou and the user are going to have a random small talk.\nThe topic can vary from weather to habbit.\nYou can start by picking a random topic.\n";

/// Whether two strings hold the same characters.
pub fn str_eq(a: &str, b: &str) -> (r: bool)
    ensures
        r == (a@ == b@),
{
    let n = a.unicode_len();
    if n != b.unicode_len() {
        return false;
    }
    let mut i: usize = 0;
    while i < n
        invariant
            i <= n,
            n == a@.len(),
            n == b@.len(),
            a@.subrange(0, i as int) == b@.subrange(0, i as int),
        decreases n - i,
    {
        if a.get_char(i) != b.get_char(i) {
            assert(a@.subrange(0, i + 1)[i as int] != b@.subrange(0, i + 1)[i as int]);
            return false;
        }
        proof {
            assert(a@.subrange(0, i + 1) =~= a@.subrange(0, i as int).push(a@[i as int]));
            assert(b@.subrange(0, i + 1) =~= b@.subrange(0, i as int).push(b@[i as int]));
        }
        i = i + 1;
    }
    proof {
        assert(a@ =~= a@.subrange(0, n as int));
        assert(b@ =~= b@.subrange(0, n as int));
    }
    true
}

/// Whether `p` is a prefix of `s`.
pub open spec fn is_prefix(p: Seq<char>, s: Seq<char>) -> bool {
    p.len() <= s.len() && s.subrange(0, p.len() as int) == p
}

/// Whether `s` starts with `p`.
pub fn starts_with(s: &str, p: &str) -> (r: bool)
    ensures
        r == is_prefix(p@, s@),
{
    let n = p.unicode_len();
    if n > s.unicode_len() {
        return false;
    }
    let mut i: usize = 0;
    while i < n
        invariant
            i <= n,
            n == p@.len(),
            n <= s@.len(),
            s@.subrange(0, i as int) == p@.subrange(0, i as int),
        decreases n - i,
    {
        if s.get_char(i) != p.get_char(i) {
            assert(s@.subrange(0, n as int)[i as int] != p@[i as int]);
            return false;
        }
        proof {
            assert(s@.subrange(0, i + 1) =~= s@.subrange(0, i as int).push(s@[i as int]));
            assert(p@.subrange(0, i + 1) =~= p@.subrange(0, i as int).push(p@[i as int]));
        }
        i = i + 1;
    }
    proof {
        assert(p@ =~= p@.subrange(0, n as int));
    }
    true
}

/// The system prompt that a conversation runs under.
#[derive(Clone, Copy, Debug, PartialEq, Eq, Structural)]
pub enum TgBotPrompt {
    Default,
    NihongoTranslate,
    NihongoExplain,
    NihongoSceneMockCafe,
    NihongoSceneMockRestaurant,
    NihongoSceneMockClothesShop,
    NihongoSceneMockStreet,
    NihongoSceneMockSmallTalk,
}

impl TgBotPrompt {
    /// The identifier under which the prompt is stored.
    pub open spec fn spec_id(self) -> Seq<char> {
        match self {
            TgBotPrompt::Default => "default"@,
            TgBotPrompt::NihongoTranslate => "nihongo-translate"@,
            TgBotPrompt::NihongoExplain => "nihongo-explain"@,
            TgBotPrompt::NihongoSceneMockCafe => "nihongo-scene-mock-cafe"@,
            TgBotPrompt::NihongoSceneMockRestaurant => "nihongo-scene-mock-restaurant"@,
            TgBotPrompt::NihongoSceneMockClothesShop => "nihongo-scene-mock-clothes-shop"@,
            TgBotPrompt::NihongoSceneMockStreet => "nihongo-scene-mock-street"@,
            TgBotPrompt::NihongoSceneMockSmallTalk => "nihongo-scene-mock-small-talk"@,
        }
    }

    /// The prompt named by an identifier; an unknown one names the default.
    pub open spec fn spec_from_id(v: Seq<char>) -> TgBotPrompt {
        if v == "nihongo-translate"@ {
            TgBotPrompt::NihongoTranslate
        } else if v == "nihongo-explain"@ {
            TgBotPrompt::NihongoExplain
        } else if v == "nihongo-scene-mock-cafe"@ {
            TgBotPrompt::NihongoSceneMockCafe
        } else if v == "nihongo-scene-mock-restaurant"@ {
            TgBotPrompt::NihongoSceneMockRestaurant
        } else if v == "nihongo-scene-mock-clothes-shop"@ {
            TgBotPrompt::NihongoSceneMockClothesShop
        } else if v == "nihongo-scene-mock-street"@ {
            TgBotPrompt::NihongoSceneMockStreet
        } else if v == "nihongo-scene-mock-small-talk"@ {
            TgBotPrompt::NihongoSceneMockSmallTalk
        } else {
            TgBotPrompt::Default
        }
    }

    /// The full text of the prompt: the default prompt, then for a mock
    /// scene the common scene prompt, then the prompt of its own, joined
    /// by line feeds.
    pub open spec fn spec_prompt(self) -> Seq<char> {
        match self {
            TgBotPrompt::Default => DEFAULT_PROMPT@,
            TgBotPrompt::NihongoTranslate => DEFAULT_PROMPT@ + "\n"@ + NIHONGO_TRANSLATE_PROMPT@,
            TgBotPrompt::NihongoExplain => DEFAULT_PROMPT@ + "\n"@ + NIHONGO_EXPLAIN_PROMPT@,
            TgBotPrompt::NihongoSceneMockCafe => DEFAULT_PROMPT@ + "\n"@
                + NIHONGO_MOCK_SCENE_PROMPT@ + "\n"@ + NIHONGO_MOCK_SCENE_CAFE_PROMPT@,
            TgBotPrompt::NihongoSceneMockRestaurant => DEFAULT_PROMPT@ + "\n"@
                + NIHONGO_MOCK_SCENE_PROMPT@ + "\n"@ + NIHONGO_MOCK_SCENE_RESTAURANT_PROMPT@,
            TgBotPrompt::NihongoSceneMockClothesShop => DEFAULT_PROMPT@ + "\n"@
                + NIHONGO_MOCK_SCENE_PROMPT@ + "\n"@ + NIHONGO_MOCK_SCENE_CLOTHES_SHOP_PROMPT@,
            TgBotPrompt::NihongoSceneMockStreet => DEFAULT_PROMPT@ + "\n"@
                + NIHONGO_MOCK_SCENE_PROMPT@ + "\n"@ + NIHONGO_MOCK_SCENE_STREET_PROMPT@,
            TgBotPrompt::NihongoSceneMockSmallTalk => DEFAULT_PROMPT@ + "\n"@
                + NIHONGO_MOCK_SCENE_PROMPT@ + "\n"@ + NIHONGO_MOCK_SCENE_SMALL_TALK_PROMPT@,
        }
    }

    /// The identifier under which the prompt is stored.
    pub fn id(&self) -> (r: &'static str)
        ensures
            r@ == self.spec_id(),
    {
        match self {
            TgBotPrompt::NihongoTranslate => "nihongo-translate",
            TgBotPrompt::NihongoExplain => "nihongo-explain",
            TgBotPrompt::NihongoSceneMockCafe => "nihongo-scene-mock-cafe",
            TgBotPrompt::NihongoSceneMockRestaurant => "nihongo-scene-mock-restaurant",
            TgBotPrompt::NihongoSceneMockClothesShop => "nihongo-scene-mock-clothes-shop",
            TgBotPrompt::NihongoSceneMockStreet => "nihongo-scene-mock-street",
            TgBotPrompt::NihongoSceneMockSmallTalk => "nihongo-scene-mock-small-talk",
            TgBotPrompt::Default => "default",
        }
    }

    /// The full text of the prompt.
    pub fn prompt(&self) -> (r: String)
        ensures
            r@ == self.spec_prompt(),
    {
        let mut r = String::from_str(DEFAULT_PROMPT);
        let own = match self {
            TgBotPrompt::Default => {
                return r;
            },
            TgBotPrompt::NihongoTranslate => NIHONGO_TRANSLATE_PROMPT,
            TgBotPrompt::NihongoExplain => NIHONGO_EXPLAIN_PROMPT,
            TgBotPrompt::NihongoSceneMockCafe => NIHONGO_MOCK_SCENE_CAFE_PROMPT,
            TgBotPrompt::NihongoSceneMockRestaurant => NIHONGO_MOCK_SCENE_RESTAURANT_PROMPT,
            TgBotPrompt::NihongoSceneMockClothesShop => NIHONGO_MOCK_SCENE_CLOTHES_SHOP_PROMPT,
            TgBotPrompt::NihongoSceneMockStreet => NIHONGO_MOCK_SCENE_STREET_PROMPT,
            TgBotPrompt::NihongoSceneMockSmallTalk => NIHONGO_MOCK_SCENE_SMALL_TALK_PROMPT,
        };
        match self {
            TgBotPrompt::NihongoTranslate | TgBotPrompt::NihongoExplain => {},
            _ => {
                r.append("\n");
                r.append(NIHONGO_MOCK_SCENE_PROMPT);
            },
        }
        r.append("\n");
        r.append(own);
        r
    }

    /// The prompt named by an identifier; an unknown one names the default.
    pub fn from_id(value: &str) -> (r: TgBotPrompt)
        ensures
            r == TgBotPrompt::spec_from_id(value@),
    {
        if str_eq(value, "nihongo-translate") {
            TgBotPrompt::NihongoTranslate
        } else if str_eq(value, "nihongo-explain") {
            TgBotPrompt::NihongoExplain
        } else if str_eq(value, "nihongo-scene-mock-cafe") {
            TgBotPrompt::NihongoSceneMockCafe
        } else if str_eq(value, "nihongo-scene-mock-restaurant") {
            TgBotPrompt::NihongoSceneMockRestaurant
        } else if str_eq(value, "nihongo-scene-mock-clothes-shop") {
            TgBotPrompt::NihongoSceneMockClothesShop
        } else if str_eq(value, "nihongo-scene-mock-street") {
            TgBotPrompt::NihongoSceneMockStreet
        } else if str_eq(value, "nihongo-scene-mock-small-talk") {
            TgBotPrompt::NihongoSceneMockSmallTalk
        } else {
            TgBotPrompt::Default
        }
    }
}


/// The greeting sent when a conversation under the prompt starts; the
/// default prompt has none.
pub open spec fn spec_opening(p: TgBotPrompt) -> Option<Seq<char>> {
    match p {
        TgBotPrompt::Default => None,
        TgBotPrompt::NihongoTranslate => Some("日本語に翻訳しています"@),
        TgBotPrompt::NihongoExplain => Some("日本語の言葉を説明しています"@),
        TgBotPrompt::NihongoSceneMockCafe => Some("カフェでいます"@),
        TgBotPrompt::NihongoSceneMockRestaurant => Some("レストランでいます"@),
        TgBotPrompt::NihongoSceneMockClothesShop => Some("服屋でいます"@),
        TgBotPrompt::NihongoSceneMockStreet => Some("街でいます"@),
        TgBotPrompt::NihongoSceneMockSmallTalk => Some("雑談しています"@),
    }
}

/// The greeting sent when a conversation under `p` starts.
pub fn opening(p: TgBotPrompt) -> (r: Option<&'static str>)
    ensures
        match r {
            Some(t) => spec_opening(p) == Some(t@),
            None => spec_opening(p) is None,
        },
{
    match p {
        TgBotPrompt::Default => None,
        TgBotPrompt::NihongoTranslate => Some("日本語に翻訳しています"),
        TgBotPrompt::NihongoExplain => Some("日本語の言葉を説明しています"),
        TgBotPrompt::NihongoSceneMockCafe => Some("カフェでいます"),
        TgBotPrompt::NihongoSceneMockRestaurant => Some("レストランでいます"),
        TgBotPrompt::NihongoSceneMockClothesShop => Some("服屋でいます"),
        TgBotPrompt::NihongoSceneMockStreet => Some("街でいます"),
        TgBotPrompt::NihongoSceneMockSmallTalk => Some("雑談しています"),
    }
}

/// The language models a user can choose.
#[derive(Clone, Copy, Debug, PartialEq, Eq, Structural)]
pub enum LanguageModel {
    Gpt35Turbo,
    Gpt35Turbo16K,
    Gpt4,
}

impl LanguageModel {
    /// The name under which the choice is stored and shown.
    pub open spec fn spec_name(self) -> Seq<char> {
        match self {
            LanguageModel::Gpt35Turbo => "gpt3.5-turbo"@,
            LanguageModel::Gpt35Turbo16K => "gpt3.5-turbo-16k"@,
            LanguageModel::Gpt4 => "gpt4"@,
        }
    }

    /// The model for a stored setting: `gpt4` and `gpt3.5-turbo` name
    /// theirs, anything else (a setting that is no string too) gives
    /// `gpt3.5-turbo-16k`.
    pub open spec fn spec_from_setting(v: Option<Seq<char>>) -> LanguageModel {
        if v == Some("gpt4"@) {
            LanguageModel::Gpt4
        } else if v == Some("gpt3.5-turbo"@) {
            LanguageModel::Gpt35Turbo
        } else {
            LanguageModel::Gpt35Turbo16K
        }
    }

    /// The name under which the choice is stored and shown.
    pub fn name(&self) -> (r: &'static str)
        ensures
            r@ == self.spec_name(),
    {
        match self {
            LanguageModel::Gpt35Turbo => "gpt3.5-turbo",
            LanguageModel::Gpt35Turbo16K => "gpt3.5-turbo-16k",
            LanguageModel::Gpt4 => "gpt4",
        }
    }

    /// The model for a stored setting, `None` where the setting is no string.
    pub fn from_setting(v: Option<&str>) -> (r: LanguageModel)
        ensures
            r == LanguageModel::spec_from_setting(
                match v {
                    Some(t) => Some(t@),
                    None => None,
                },
            ),
    {
        match v {
            Some(t) => if str_eq(t, "gpt4") {
                LanguageModel::Gpt4
            } else if str_eq(t, "gpt3.5-turbo") {
                LanguageModel::Gpt35Turbo
            } else {
                LanguageModel::Gpt35Turbo16K
            },
            None => LanguageModel::Gpt35Turbo16K,
        }
    }
}

/// The buttons of the bot's inline keyboards.
#[derive(Clone, Copy, Debug, PartialEq, Eq, Structural)]
pub enum TgBotInlineButton {
    NihongoTranslate,
    NihongoExplain,
    NihongoSceneMock,
    NihongoSceneMockRestaurant,
    NihongoSceneMockCafe,
    NihongoSceneMockClothesShop,
    NihongoSceneMockStreet,
    NihongoSceneMockSmallTalk,
    NihongoSceneMockGoBack,
    SettingsLMGPT35Turbo,
    SettingsLMGPT35Turbo16K,
    SettingsLMGPT4,
}

/// A button's identifier names no button.
#[derive(Debug, PartialEq, Eq)]
pub struct UnknownButton {
    pub id: String,
}

/// What pressing a button asks for.
#[derive(Clone, Copy, Debug, PartialEq, Eq, Structural)]
pub enum ButtonAction {
    /// Start a conversation under a prompt.
    StartConversation(TgBotPrompt),
    /// Show the keyboard of mock scenes.
    ShowScenes,
    /// Show the Japanese learning keyboard again, in place.
    ShowNihongoMenu,
    /// Store the choice of a language model.
    UseModel(LanguageModel),
}

impl TgBotInlineButton {
    /// The callback identifier of the button.
    pub open spec fn spec_id(self) -> Seq<char> {
        match self {
            TgBotInlineButton::NihongoTranslate => "NihongoTranslate"@,
            TgBotInlineButton::NihongoExplain => "NihongoExplain"@,
            TgBotInlineButton::NihongoSceneMock => "NihongoSceneMock"@,
            TgBotInlineButton::NihongoSceneMockRestaurant => "NihongoSceneMockRestaurant"@,
            TgBotInlineButton::NihongoSceneMockCafe => "NihongoSceneMockCafe"@,
            TgBotInlineButton::NihongoSceneMockClothesShop => "NihongoSceneMockClothesShop"@,
            TgBotInlineButton::NihongoSceneMockStreet => "NihongoSceneMockStreet"@,
            TgBotInlineButton::NihongoSceneMockSmallTalk => "NihongoSceneMockSmallTalk"@,
            TgBotInlineButton::NihongoSceneMockGoBack => "NihongoSceneMockGoBack"@,
            TgBotInlineButton::SettingsLMGPT35Turbo => "SettingsLMGPT35Turbo"@,
            TgBotInlineButton::SettingsLMGPT35Turbo16K => "SettingsLMGPT35Turbo16K"@,
            TgBotInlineButton::SettingsLMGPT4 => "SettingsLMGPT4"@,
        }
    }

    /// The label shown on the button.
    pub open spec fn spec_title(self) -> Seq<char> {
        match self {
            TgBotInlineButton::NihongoTranslate => "翻訳"@,
            TgBotInlineButton::NihongoExplain => "説明"@,
            TgBotInlineButton::NihongoSceneMock => "模擬会話"@,
            TgBotInlineButton::NihongoSceneMockRestaurant => "レストラン"@,
            TgBotInlineButton::NihongoSceneMockCafe => "カフェ"@,
            TgBotInlineButton::NihongoSceneMockClothesShop => "服屋"@,
            TgBotInlineButton::NihongoSceneMockStreet => "街"@,
            TgBotInlineButton::NihongoSceneMockSmallTalk => "自由"@,
            TgBotInlineButton::NihongoSceneMockGoBack => "戻る"@,
            TgBotInlineButton::SettingsLMGPT35Turbo => "gpt3.5-turbo"@,
            TgBotInlineButton::SettingsLMGPT35Turbo16K => "gpt3.5-turbo-16k"@,
            TgBotInlineButton::SettingsLMGPT4 => "gpt4"@,
        }
    }

    /// The button whose identifier is `v`.
    pub open spec fn spec_from_id(v: Seq<char>) -> Option<TgBotInlineButton> {
        if v == "NihongoTranslate"@ {
            Some(TgBotInlineButton::NihongoTranslate)
        } else
        if v == "NihongoExplain"@ {
            Some(TgBotInlineButton::NihongoExplain)
        } else
        if v == "NihongoSceneMock"@ {
            Some(TgBotInlineButton::NihongoSceneMock)
        } else
        if v == "NihongoSceneMockRestaurant"@ {
            Some(TgBotInlineButton::NihongoSceneMockRestaurant)
        } else
        if v == "NihongoSceneMockCafe"@ {
            Some(TgBotInlineButton::NihongoSceneMockCafe)
        } else
        if v == "NihongoSceneMockClothesShop"@ {
            Some(TgBotInlineButton::NihongoSceneMockClothesShop)
        } else
        if v == "NihongoSceneMockStreet"@ {
            Some(TgBotInlineButton::NihongoSceneMockStreet)
        } else
        if v == "NihongoSceneMockSmallTalk"@ {
            Some(TgBotInlineButton::NihongoSceneMockSmallTalk)
        } else
        if v == "NihongoSceneMockGoBack"@ {
            Some(TgBotInlineButton::NihongoSceneMockGoBack)
        } else
        if v == "SettingsLMGPT35Turbo"@ {
            Some(TgBotInlineButton::SettingsLMGPT35Turbo)
        } else
        if v == "SettingsLMGPT35Turbo16K"@ {
            Some(TgBotInlineButton::SettingsLMGPT35Turbo16K)
        } else
        if v == "SettingsLMGPT4"@ {
            Some(TgBotInlineButton::SettingsLMGPT4)
        } else {
            None
        }
    }

    /// What pressing the button asks for.
    pub open spec fn spec_action(self) -> ButtonAction {
        match self {
            TgBotInlineButton::NihongoTranslate => ButtonAction::StartConversation(
                TgBotPrompt::NihongoTranslate,
            ),
            TgBotInlineButton::NihongoExplain => ButtonAction::StartConversation(
                TgBotPrompt::NihongoExplain,
            ),
            TgBotInlineButton::NihongoSceneMock => ButtonAction::ShowScenes,
            TgBotInlineButton::NihongoSceneMockRestaurant => ButtonAction::StartConversation(
                TgBotPrompt::NihongoSceneMockRestaurant,
            ),
            TgBotInlineButton::NihongoSceneMockCafe => ButtonAction::StartConversation(
                TgBotPrompt::NihongoSceneMockCafe,
            ),
            TgBotInlineButton::NihongoSceneMockClothesShop => ButtonAction::StartConversation(
                TgBotPrompt::NihongoSceneMockClothesShop,
            ),
            TgBotInlineButton::NihongoSceneMockStreet => ButtonAction::StartConversation(
                TgBotPrompt::NihongoSceneMockStreet,
            ),
            TgBotInlineButton::NihongoSceneMockSmallTalk => ButtonAction::StartConversation(
                TgBotPrompt::NihongoSceneMockSmallTalk,
            ),
            TgBotInlineButton::NihongoSceneMockGoBack => ButtonAction::ShowNihongoMenu,
            TgBotInlineButton::SettingsLMGPT35Turbo => ButtonAction::UseModel(
                LanguageModel::Gpt35Turbo,
            ),
            TgBotInlineButton::SettingsLMGPT35Turbo16K => ButtonAction::UseModel(
                LanguageModel::Gpt35Turbo16K,
            ),
            TgBotInlineButton::SettingsLMGPT4 => ButtonAction::UseModel(LanguageModel::Gpt4),
        }
    }

    /// The callback identifier of the button.
    pub fn id(&self) -> (r: String)
        ensures
            r@ == self.spec_id(),
    {
        let t = match self {
            TgBotInlineButton::NihongoTranslate => "NihongoTranslate",
            TgBotInlineButton::NihongoExplain => "NihongoExplain",
            TgBotInlineButton::NihongoSceneMock => "NihongoSceneMock",
            TgBotInlineButton::NihongoSceneMockRestaurant => "NihongoSceneMockRestaurant",
            TgBotInlineButton::NihongoSceneMockCafe => "NihongoSceneMockCafe",
            TgBotInlineButton::NihongoSceneMockClothesShop => "NihongoSceneMockClothesShop",
            TgBotInlineButton::NihongoSceneMockStreet => "NihongoSceneMockStreet",
            TgBotInlineButton::NihongoSceneMockSmallTalk => "NihongoSceneMockSmallTalk",
            TgBotInlineButton::NihongoSceneMockGoBack => "NihongoSceneMockGoBack",
            TgBotInlineButton::SettingsLMGPT35Turbo => "SettingsLMGPT35Turbo",
            TgBotInlineButton::SettingsLMGPT35Turbo16K => "SettingsLMGPT35Turbo16K",
            TgBotInlineButton::SettingsLMGPT4 => "SettingsLMGPT4",
        };
        String::from_str(t)
    }

    /// The label shown on the button.
    pub fn title(&self) -> (r: String)
        ensures
            r@ == self.spec_title(),
    {
        let t = match self {
            TgBotInlineButton::NihongoTranslate => "翻訳",
            TgBotInlineButton::NihongoExplain => "説明",
            TgBotInlineButton::NihongoSceneMock => "模擬会話",
            TgBotInlineButton::NihongoSceneMockRestaurant => "レストラン",
            TgBotInlineButton::NihongoSceneMockCafe => "カフェ",
            TgBotInlineButton::NihongoSceneMockClothesShop => "服屋",
            TgBotInlineButton::NihongoSceneMockStreet => "街",
            TgBotInlineButton::NihongoSceneMockSmallTalk => "自由",
            TgBotInlineButton::NihongoSceneMockGoBack => "戻る",
            TgBotInlineButton::SettingsLMGPT35Turbo => "gpt3.5-turbo",
            TgBotInlineButton::SettingsLMGPT35Turbo16K => "gpt3.5-turbo-16k",
            TgBotInlineButton::SettingsLMGPT4 => "gpt4",
        };
        String::from_str(t)
    }

    /// The button whose identifier is `value`, or an error that carries it.
    pub fn from_id(value: &str) -> (r: Result<TgBotInlineButton, UnknownButton>)
        ensures
            match r {
                Ok(b) => TgBotInlineButton::spec_from_id(value@) == Some(b),
                Err(e) => TgBotInlineButton::spec_from_id(value@) is None && e.id@ == value@,
            },
    {
        if str_eq(value, "NihongoTranslate") {
            Ok(TgBotInlineButton::NihongoTranslate)
        } else
        if str_eq(value, "NihongoExplain") {
            Ok(TgBotInlineButton::NihongoExplain)
        } else
        if str_eq(value, "NihongoSceneMock") {
            Ok(TgBotInlineButton::NihongoSceneMock)
        } else
        if str_eq(value, "NihongoSceneMockRestaurant") {
            Ok(TgBotInlineButton::NihongoSceneMockRestaurant)
        } else
        if str_eq(value, "NihongoSceneMockCafe") {
            Ok(TgBotInlineButton::NihongoSceneMockCafe)
        } else
        if str_eq(value, "NihongoSceneMockClothesShop") {
            Ok(TgBotInlineButton::NihongoSceneMockClothesShop)
        } else
        if str_eq(value, "NihongoSceneMockStreet") {
            Ok(TgBotInlineButton::NihongoSceneMockStreet)
        } else
        if str_eq(value, "NihongoSceneMockSmallTalk") {
            Ok(TgBotInlineButton::NihongoSceneMockSmallTalk)
        } else
        if str_eq(value, "NihongoSceneMockGoBack") {
            Ok(TgBotInlineButton::NihongoSceneMockGoBack)
        } else
        if str_eq(value, "SettingsLMGPT35Turbo") {
            Ok(TgBotInlineButton::SettingsLMGPT35Turbo)
        } else
        if str_eq(value, "SettingsLMGPT35Turbo16K") {
            Ok(TgBotInlineButton::SettingsLMGPT35Turbo16K)
        } else
        if str_eq(value, "SettingsLMGPT4") {
            Ok(TgBotInlineButton::SettingsLMGPT4)
        } else {
            Err(UnknownButton { id: String::from_str(value) })
        }
    }

    /// What pressing the button asks for.
    pub fn action(&self) -> (r: ButtonAction)
        ensures
            r == self.spec_action(),
    {
        match self {
            TgBotInlineButton::NihongoTranslate => ButtonAction::StartConversation(
                TgBotPrompt::NihongoTranslate,
            ),
            TgBotInlineButton::NihongoExplain => ButtonAction::StartConversation(
                TgBotPrompt::NihongoExplain,
            ),
            TgBotInlineButton::NihongoSceneMock => ButtonAction::ShowScenes,
            TgBotInlineButton::NihongoSceneMockRestaurant => ButtonAction::StartConversation(
                TgBotPrompt::NihongoSceneMockRestaurant,
            ),
            TgBotInlineButton::NihongoSceneMockCafe => ButtonAction::StartConversation(
                TgBotPrompt::NihongoSceneMockCafe,
            ),
            TgBotInlineButton::NihongoSceneMockClothesShop => ButtonAction::StartConversation(
                TgBotPrompt::NihongoSceneMockClothesShop,
            ),
            TgBotInlineButton::NihongoSceneMockStreet => ButtonAction::StartConversation(
                TgBotPrompt::NihongoSceneMockStreet,
            ),
            TgBotInlineButton::NihongoSceneMockSmallTalk => ButtonAction::StartConversation(
                TgBotPrompt::NihongoSceneMockSmallTalk,
            ),
            TgBotInlineButton::NihongoSceneMockGoBack => ButtonAction::ShowNihongoMenu,
            TgBotInlineButton::SettingsLMGPT35Turbo => ButtonAction::UseModel(
                LanguageModel::Gpt35Turbo,
            ),
            TgBotInlineButton::SettingsLMGPT35Turbo16K => ButtonAction::UseModel(
                LanguageModel::Gpt35Turbo16K,
            ),
            TgBotInlineButton::SettingsLMGPT4 => ButtonAction::UseModel(LanguageModel::Gpt4),
        }
    }
}

/// The Japanese learning keyboard: translate and explain on one row, mock
/// conversation on the next.
pub fn nihongo_keyboard() -> (r: Vec<Vec<TgBotInlineButton>>)
    ensures
        r@.len() == 2,
        r@[0]@ == seq![TgBotInlineButton::NihongoTranslate, TgBotInlineButton::NihongoExplain],
        r@[1]@ == seq![TgBotInlineButton::NihongoSceneMock],
{
    let mut r: Vec<Vec<TgBotInlineButton>> = Vec::new();
    r.push(vec![TgBotInlineButton::NihongoTranslate, TgBotInlineButton::NihongoExplain]);
    r.push(vec![TgBotInlineButton::NihongoSceneMock]);
    r
}

/// One button per row, in the order given.
fn one_per_row(bs: Vec<TgBotInlineButton>) -> (r: Vec<Vec<TgBotInlineButton>>)
    ensures
        r@.len() == bs@.len(),
        forall|k: int| 0 <= k < bs@.len() ==> (#[trigger] r@[k])@ == seq![bs@[k]],
{
    let mut r: Vec<Vec<TgBotInlineButton>> = Vec::new();
    let mut i: usize = 0;
    while i < bs.len()
        invariant
            i <= bs@.len(),
            r@.len() == i,
            forall|k: int| 0 <= k < i ==> (#[trigger] r@[k])@ == seq![bs@[k]],
        decreases bs@.len() - i,
    {
        let row = vec![bs[i]];
        proof {
            assert(row@ =~= seq![bs@[i as int]]);
        }
        r.push(row);
        i = i + 1;
    }
    r
}

/// The keyboard of mock scenes, one button per row, going back last.
pub fn scene_keyboard() -> (r: Vec<Vec<TgBotInlineButton>>)
    ensures
        r@.len() == 6,
        forall|k: int|
            0 <= k < 6 ==> (#[trigger] r@[k])@ == seq![
                seq![
                    TgBotInlineButton::NihongoSceneMockCafe,
                    TgBotInlineButton::NihongoSceneMockRestaurant,
                    TgBotInlineButton::NihongoSceneMockClothesShop,
                    TgBotInlineButton::NihongoSceneMockStreet,
                    TgBotInlineButton::NihongoSceneMockSmallTalk,
                    TgBotInlineButton::NihongoSceneMockGoBack,
                ][k],
            ],
{
    let bs = vec![
        TgBotInlineButton::NihongoSceneMockCafe,
        TgBotInlineButton::NihongoSceneMockRestaurant,
        TgBotInlineButton::NihongoSceneMockClothesShop,
        TgBotInlineButton::NihongoSceneMockStreet,
        TgBotInlineButton::NihongoSceneMockSmallTalk,
        TgBotInlineButton::NihongoSceneMockGoBack,
    ];
    one_per_row(bs)
}

/// The keyboard of language models, one button per row.
pub fn settings_keyboard() -> (r: Vec<Vec<TgBotInlineButton>>)
    ensures
        r@.len() == 3,
        forall|k: int|
            0 <= k < 3 ==> (#[trigger] r@[k])@ == seq![
                seq![
                    TgBotInlineButton::SettingsLMGPT35Turbo,
                    TgBotInlineButton::SettingsLMGPT35Turbo16K,
                    TgBotInlineButton::SettingsLMGPT4,
                ][k],
            ],
{
    let bs = vec![
        TgBotInlineButton::SettingsLMGPT35Turbo,
        TgBotInlineButton::SettingsLMGPT35Turbo16K,
        TgBotInlineButton::SettingsLMGPT4,
    ];
    one_per_row(bs)
}


/// The commands the bot lists in its menu.
#[derive(Clone, Copy, Debug, PartialEq, Eq, Structural)]
pub enum TgBotCommand {
    Ask,
    Nihongo,
    Settings,
    Help,
}

impl TgBotCommand {
    /// The command word, without the slash.
    pub open spec fn spec_command(self) -> Seq<char> {
        match self {
            TgBotCommand::Ask => "ask"@,
            TgBotCommand::Nihongo => "nihongo"@,
            TgBotCommand::Settings => "settings"@,
            TgBotCommand::Help => "help"@,
        }
    }

    /// What the command does, as the menu shows it.
    pub open spec fn spec_description(self) -> Seq<char> {
        match self {
            TgBotCommand::Ask => "ask any questions"@,
            TgBotCommand::Nihongo => "learn japanese by sentences and questions"@,
            TgBotCommand::Settings => "adjust settings of the bot"@,
            TgBotCommand::Help => "show help messages"@,
        }
    }

    /// The line that presents the command: a slash, the word, a space and
    /// the description.
    pub open spec fn spec_text(self) -> Seq<char> {
        "/"@ + self.spec_command() + " "@ + self.spec_description()
    }

    /// The commands of the menu, in order.
    pub open spec fn spec_root_commands() -> Seq<TgBotCommand> {
        seq![TgBotCommand::Ask, TgBotCommand::Nihongo, TgBotCommand::Settings, TgBotCommand::Help]
    }

    /// The command word, without the slash.
    pub fn command(&self) -> (r: &'static str)
        ensures
            r@ == self.spec_command(),
    {
        match self {
            TgBotCommand::Ask => "ask",
            TgBotCommand::Nihongo => "nihongo",
            TgBotCommand::Settings => "settings",
            TgBotCommand::Help => "help",
        }
    }

    /// What the command does, as the menu shows it.
    pub fn description(&self) -> (r: &'static str)
        ensures
            r@ == self.spec_description(),
    {
        match self {
            TgBotCommand::Ask => "ask any questions",
            TgBotCommand::Nihongo => "learn japanese by sentences and questions",
            TgBotCommand::Settings => "adjust settings of the bot",
            TgBotCommand::Help => "show help messages",
        }
    }

    /// The line that presents the command.
    pub fn text(&self) -> (r: String)
        ensures
            r@ == self.spec_text(),
    {
        let mut r = String::from_str("/");
        r.append(self.command());
        r.append(" ");
        r.append(self.description());
        r
    }

    /// The commands of the menu, in order.
    pub fn root_commands() -> (r: Vec<TgBotCommand>)
        ensures
            r@ == TgBotCommand::spec_root_commands(),
    {
        let r = vec![
            TgBotCommand::Ask,
            TgBotCommand::Nihongo,
            TgBotCommand::Settings,
            TgBotCommand::Help,
        ];
        proof {
            assert(r@ =~= TgBotCommand::spec_root_commands());
        }
        r
    }
}

/// The lines of `cs`, one after another with a line feed between two.
pub open spec fn command_lines(cs: Seq<TgBotCommand>) -> Seq<char>
    decreases cs.len(),
{
    if cs.len() == 0 {
        Seq::empty()
    } else if cs.len() == 1 {
        cs[0].spec_text()
    } else {
        command_lines(cs.drop_last()) + "\n"@ + cs.last().spec_text()
    }
}

/// The help message: the greeting, then the list of the menu's commands.
pub open spec fn spec_help_message(greeting: Seq<char>) -> Seq<char> {
    greeting + " Available commands:\n"@ + command_lines(TgBotCommand::spec_root_commands())
}

/// The help message for `greeting`.
pub fn help_message(greeting: &str) -> (r: String)
    ensures
        r@ == spec_help_message(greeting@),
{
    let mut r = String::from_str(greeting);
    r.append(" Available commands:\n");
    let cs = TgBotCommand::root_commands();
    let ghost head = r@;
    let mut i: usize = 0;
    while i < cs.len()
        invariant
            i <= cs@.len(),
            cs@ == TgBotCommand::spec_root_commands(),
            r@ == head + command_lines(cs@.subrange(0, i as int)),
        decreases cs@.len() - i,
    {
        if i > 0 {
            r.append("\n");
        }
        let line = cs[i].text();
        r.append(line.as_str());
        proof {
            let t = cs@.subrange(0, i + 1);
            assert(t.drop_last() =~= cs@.subrange(0, i as int));
            if i == 0 {
                assert(command_lines(cs@.subrange(0, 0)) == Seq::<char>::empty());
                assert(head + Seq::<char>::empty() + line@ =~= head + line@);
            } else {
                assert(r@ =~= head + command_lines(t));
            }
        }
        i = i + 1;
    }
    proof {
        assert(cs@.subrange(0, cs@.len() as int) =~= cs@);
    }
    r
}

/// Which handler an incoming message goes to.
#[derive(Clone, Copy, Debug, PartialEq, Eq, Structural)]
pub enum Route {
    Ask,
    Nihongo,
    Settings,
    Help,
}

/// The handler for a message with text `text` (`None` where it has none),
/// `is_reply` telling whether it answers another message: a reply with text
/// is a question, else the command that the text starts with decides, and
/// anything else gets the help message.
pub open spec fn spec_route(text: Option<Seq<char>>, is_reply: bool) -> Route {
    match text {
        None => Route::Help,
        Some(t) => if is_reply {
            Route::Ask
        } else if is_prefix("/ask"@, t) {
            Route::Ask
        } else if is_prefix("/nihongo"@, t) {
            Route::Nihongo
        } else if is_prefix("/settings"@, t) {
            Route::Settings
        } else {
            Route::Help
        },
    }
}

/// The handler for an incoming message.
pub fn route_message(text: Option<&str>, is_reply: bool) -> (r: Route)
    ensures
        r == spec_route(
            match text {
                Some(t) => Some(t@),
                None => None,
            },
            is_reply,
        ),
{
    match text {
        None => Route::Help,
        Some(t) => if is_reply {
            Route::Ask
        } else if starts_with(t, "/ask") {
            Route::Ask
        } else if starts_with(t, "/nihongo") {
            Route::Nihongo
        } else if starts_with(t, "/settings") {
            Route::Settings
        } else {
            Route::Help
        },
    }
}

/// The question in a message that goes to the ask handler: what follows
/// `/ask ` where the text starts so, else the whole text of a reply; `None`
/// where there is no question yet and the bot must ask for one.
pub open spec fn spec_question(text: Seq<char>, is_reply: bool) -> Option<Seq<char>> {
    if is_prefix("/ask "@, text) {
        Some(text.subrange("/ask "@.len() as int, text.len() as int))
    } else if is_reply {
        Some(text)
    } else {
        None
    }
}

/// The question in a message that goes to the ask handler.
pub fn question_of(text: &str, is_reply: bool) -> (r: Option<&str>)
    ensures
        match r {
            Some(q) => spec_question(text@, is_reply) == Some(q@),
            None => spec_question(text@, is_reply) is None,
        },
{
    let prefix = "/ask ";
    proof {
        reveal_strlit("/ask ");
    }
    if starts_with(text, prefix) {
        Some(text.substring_char(5, text.unicode_len()))
    } else if is_reply {
        Some(text)
    } else {
        None
    }
}

/// The character of a decimal digit.
pub open spec fn digit_char(d: nat) -> char {
    if d == 0 {
        '0'
    } else if d == 1 {
        '1'
    } else if d == 2 {
        '2'
    } else if d == 3 {
        '3'
    } else if d == 4 {
        '4'
    } else if d == 5 {
        '5'
    } else if d == 6 {
        '6'
    } else if d == 7 {
        '7'
    } else if d == 8 {
        '8'
    } else {
        '9'
    }
}

/// The decimal digits of `n`, without leading zeros.
pub open spec fn digits(n: nat) -> Seq<char>
    decreases n,
{
    if n < 10 {
        seq![digit_char(n)]
    } else {
        digits(n / 10) + seq![digit_char(n % 10)]
    }
}

/// The decimal form of `n`, with a minus sign where it is negative.
pub open spec fn decimal(n: int) -> Seq<char> {
    if n < 0 {
        seq!['-'] + digits((-n) as nat)
    } else {
        digits(n as nat)
    }
}

fn digit(d: u64) -> (c: char)
    requires
        d < 10,
    ensures
        c == digit_char(d as nat),
{
    if d == 0 {
        '0'
    } else if d == 1 {
        '1'
    } else if d == 2 {
        '2'
    } else if d == 3 {
        '3'
    } else if d == 4 {
        '4'
    } else if d == 5 {
        '5'
    } else if d == 6 {
        '6'
    } else if d == 7 {
        '7'
    } else if d == 8 {
        '8'
    } else {
        '9'
    }
}

fn push_digits(out: &mut Vec<char>, n: u64)
    ensures
        final(out)@ == old(out)@ + digits(n as nat),
    decreases n,
{
    if n >= 10 {
        push_digits(out, n / 10);
    }
    out.push(digit(n % 10));
    proof {
        assert(final(out)@ =~= old(out)@ + digits(n as nat));
    }
}

fn push_decimal(out: &mut Vec<char>, n: i64)
    ensures
        final(out)@ == old(out)@ + decimal(n as int),
{
    if n < 0 {
        out.push('-');
        let m = (0 - (n as i128)) as u64;
        push_digits(out, m);
        proof {
            assert(final(out)@ =~= old(out)@ + decimal(n as int));
        }
    } else {
        push_digits(out, n as u64);
    }
}

fn push_str(out: &mut Vec<char>, t: &str)
    ensures
        final(out)@ == old(out)@ + t@,
{
    let n = t.unicode_len();
    let ghost start = out@;
    let mut i: usize = 0;
    while i < n
        invariant
            i <= n,
            n == t@.len(),
            out@ == start + t@.subrange(0, i as int),
        decreases n - i,
    {
        out.push(t.get_char(i));
        proof {
            assert(out@ =~= start + t@.subrange(0, i + 1));
        }
        i = i + 1;
    }
    proof {
        assert(t@.subrange(0, n as int) =~= t@);
    }
}

/// The key under which the context of a message is stored: `ptr--`, the
/// chat's number, `-`, the message's number.
pub open spec fn spec_message_ptr(chat_id: int, message_id: int) -> Seq<char> {
    "ptr--"@ + decimal(chat_id) + seq!['-'] + decimal(message_id)
}

/// The key under which the context of a message is stored.
pub fn message_ptr(chat_id: i64, message_id: i32) -> (r: String)
    ensures
        r@ == spec_message_ptr(chat_id as int, message_id as int),
{
    let mut v: Vec<char> = Vec::new();
    push_str(&mut v, "ptr--");
    push_decimal(&mut v, chat_id);
    v.push('-');
    push_decimal(&mut v, message_id as i64);
    proof {
        assert(v@ =~= spec_message_ptr(chat_id as int, message_id as int));
    }
    string_from_chars(&v)
}

/// The key of the model's conversation for a context: `ctx--` and the
/// context's identifier.
pub fn conversation_key(context_id: &str) -> (r: String)
    ensures
        r@ == "ctx--"@ + context_id@,
{
    let mut r = String::from_str("ctx--");
    r.append(context_id);
    r
}

} // verus!
