//! The conversation modes.

use vstd::prelude::*;

verus! {

broadcast use vstd::string::group_string_axioms;

/// What the next text is meant for.
#[derive(Debug, Clone, Copy, PartialEq, Eq, Structural)]
pub enum Mode {
    /// Conversation with translation.
    Chat,
    /// Technical questions.
    Question,
    /// Translation into Taiwan Mandarin.
    ToTaiwanMandarin,
    /// Translation into Japanese.
    ToJapanese,
    /// Taiwan Mandarin with some Bopomofo.
    Pobo,
}

impl Mode {
    /// The name of the mode.
    pub open spec fn label(self) -> Seq<char> {
        match self {
            Mode::Chat => "chat"@,
            Mode::Question => "question"@,
            Mode::ToTaiwanMandarin => "tw"@,
            Mode::ToJapanese => "jp"@,
            Mode::Pobo => "pobo"@,
        }
    }

    /// The name of the mode.
    pub fn name(self) -> (name: &'static str)
        ensures
            name@ == self.label(),
    {
        match self {
            Mode::Chat => "chat",
            Mode::Question => "question",
            Mode::ToTaiwanMandarin => "tw",
            Mode::ToJapanese => "jp",
            Mode::Pobo => "pobo",
        }
    }

    /// The longest answer to ask for, in tokens.
    pub open spec fn token_limit(self) -> u32 {
        match self {
            Mode::Chat => 900,
            Mode::Question => 1600,
            Mode::ToTaiwanMandarin => 500,
            Mode::ToJapanese => 700,
            Mode::Pobo => 400,
        }
    }

    /// The longest answer to ask for, in tokens.
    pub fn max_tokens(self) -> (limit: u32)
        ensures
            limit == self.token_limit(),
    {
        match self {
            Mode::Chat => 900,
            Mode::Question => 1600,
            Mode::ToTaiwanMandarin => 500,
            Mode::ToJapanese => 700,
            Mode::Pobo => 400,
        }
    }

    /// The sampling temperature to ask for, in hundredths.
    pub open spec fn hundredths(self) -> u32 {
        match self {
            Mode::Question => 25,
            Mode::Pobo => 20,
            _ => 30,
        }
    }

    /// The sampling temperature to ask for, in hundredths.
    pub fn temperature_hundredths(self) -> (hundredths: u32)
        ensures
            hundredths == self.hundredths(),
    {
        match self {
            Mode::Question => 25,
            Mode::Pobo => 20,
            _ => 30,
        }
    }
}

/// Different modes have different names.
pub proof fn mode_names_are_distinct(a: Mode, b: Mode)
    requires
        a.label() == b.label(),
    ensures
        a == b,
{
    reveal_strlit("chat");
    reveal_strlit("question");
    reveal_strlit("tw");
    reveal_strlit("jp");
    reveal_strlit("pobo");
    assert("chat"@[0] != "pobo"@[0]);
    assert("tw"@[0] != "jp"@[0]);
    assert(a.label().len() == b.label().len());
}

/// The instructions for conversation.
pub const CHAT_PROMPT: &'static str = r#"
你是「りもこズッ友キラキラポボモフォ2.0」。
正式名稱是「檸檬烯姐總合熱烈爆裂友情智慧板」。
你是日本語與台灣華語之間的技術會話翻譯器。

使用者「りもこ」可以輸入日本語、ローマ字、英語、或混合文。
りもこ英語可以寫，但現場口說久違了；中國語與台灣華語輸入不可假設會用。

任務：
- 幫助日本語與台灣華語的技術會話。
- 讓文字適合在 Computex Taipei 的技術展示攤位直接給對方看。
- 以繁體中文、台灣華語為優先。
- 不要使用簡體字。
- 短、自然、友善，但不要太像業務話術。
- 技術者之間要自然、有禮貌、容易繼續聊天。
- 如果輸入是台灣華語，請翻成自然日本語。
- 如果輸入是日本語、ローマ字、英語，請翻成自然台灣華語。

保持原樣：
程式碼、指令、URL、API名、型號、產品名不要擅自翻譯。
AMD, ROCm, MI25, GPU, Linux, Ubuntu, Python, Rust, C, Go, GitHub, API, CLI, OSS, LLM 保持原樣。

合言葉：
昨日的技術交流、今日的ズッ友。
"#;

/// The instructions for technical questions.
pub const QUESTION_PROMPT: &'static str = r#"
你是「檸檬烯姐總合熱烈爆裂友情智慧板」的技術質問模式。
あなたは、りもこが技術質問をするための相棒です。

目的：
- C, Rust, Linux, Ubuntu, ROCm, GPU, LLM, CLI, OSS の質問に答える。
- 回答は実装寄りにする。
- なるべく短く、すぐ試せる形にする。
- 必要ならコマンド、コード、設計方針を出す。
- チャット履歴を踏まえて回答する。
- わからないことは推測で断言しない。

口調：
- 日本語中心。
- 必要なら台灣華語も少し添えてよい。
- 楽しく、でも技術的には正確に。
"#;

/// The instructions for translation into Taiwan Mandarin.
pub const TO_TAIWAN_MANDARIN_PROMPT: &'static str = r#"
你是台灣華語翻譯模式。
使用者可能輸入日本語、ローマ字、英語、或混合文。

任務：
- 輸入を自然な繁體中文・台灣華語にする。
- 技術展示會でそのまま相手に見せられる短文にする。
- 簡體字は使わない。
- 技術用語、型番、API名、GitHub、AMD、MI25、ROCm、Linux、Ubuntu は保持する。
- 営業っぽくしすぎない。
- りもこが中国語入力できない前提で、入力意図を汲み取る。
- ローマ字の日本語も日本語として解釈する。

出力方針：
- 基本は1から3文。
- 必要な場合だけ「そのまま見せる文」「少し丁寧な文」を分ける。
- ブース担当者・エンジニアに失礼のない自然な文にする。

台灣華語技術語彙：
程式碼、函式、變數、資料、檔案、資料夾、伺服器、網路、資料庫、顯示卡、驅動程式、作業系統、本地模型、開源、儲存、記憶體、推論、訓練、量化。
"#;

/// The instructions for translation into Japanese.
pub const TO_JAPANESE_PROMPT: &'static str = r#"
你是台灣華語到日本語的翻譯模式。
輸入は台灣華語・繁體中文を想定する。

任務：
- 入力を自然な日本語にする。
- 技術用語は日本のエンジニアに通じる表現にする。
- コード、コマンド、URL、API名、型番、製品名は勝手に翻訳しない。
- 相手の意図、質問、温度感がわかるように訳す。
- 長い説明にせず、会話で使いやすくする。

必要なら、最後に短い補足を1行だけ付けてよい。
"#;

/// The instructions for Taiwan Mandarin with some Bopomofo.
pub const POBO_PROMPT: &'static str = r#"
你是ㄅㄆㄇㄈ輔助模式。
入力された日本語・漢字・英語・台灣華語を、自然な台灣華語表現に直し、必要なら注音符號を少し付ける。

方針：
- 繁體中文・台灣華語を使う。
- 簡體字は使わない。
- 注音符號は飾り程度でよい。
- 読みやすさを優先し、長くしすぎない。
- 技術語彙、型番、API名、GitHub、AMD、MI25、ROCm、Linux は保持する。

出力例：
技術友誼裝置
ㄐㄧˋ ㄕㄨˋ ㄧㄡˇ ㄧˊ ㄓㄨㄤ ㄓˋ
"#;

/// The instructions for a mode.
pub open spec fn instructions(mode: Mode) -> Seq<char> {
    match mode {
        Mode::Chat => CHAT_PROMPT@,
        Mode::Question => QUESTION_PROMPT@,
        Mode::ToTaiwanMandarin => TO_TAIWAN_MANDARIN_PROMPT@,
        Mode::ToJapanese => TO_JAPANESE_PROMPT@,
        Mode::Pobo => POBO_PROMPT@,
    }
}

/// The instructions for a mode.
pub fn system_prompt(mode: Mode) -> (prompt: &'static str)
    ensures
        prompt@ == instructions(mode),
{
    match mode {
        Mode::Chat => CHAT_PROMPT,
        Mode::Question => QUESTION_PROMPT,
        Mode::ToTaiwanMandarin => TO_TAIWAN_MANDARIN_PROMPT,
        Mode::ToJapanese => TO_JAPANESE_PROMPT,
        Mode::Pobo => POBO_PROMPT,
    }
}

/// The instructions of two modes differ within their first eight characters, so
/// that a text can begin with the instructions of one mode only.
pub proof fn instructions_tell_the_mode(a: Mode, b: Mode, text: Seq<char>)
    requires
        crate::text::begins_with(text, instructions(a)),
        crate::text::begins_with(text, instructions(b)),
    ensures
        a == b,
{
    reveal_prompts();
    let n = instructions(a).len() as int;
    let m = instructions(b).len() as int;
    assert forall|i: int| 0 <= i < 8 implies #[trigger] text[i] == instructions(a)[i] && text[i]
        == instructions(b)[i] by {
        assert(text.take(n)[i] == text[i]);
        assert(text.take(m)[i] == text[i]);
    }
    assert(text[3] == instructions(a)[3] && text[3] == instructions(b)[3]);
    assert(text[4] == instructions(a)[4] && text[4] == instructions(b)[4]);
    assert(text[7] == instructions(a)[7] && text[7] == instructions(b)[7]);
}

/// What the instructions of each mode begin with.
proof fn reveal_prompts()
    ensures
        forall|mode: Mode| #[trigger] instructions(mode).len() >= 8,
        instructions(Mode::Chat)[3] == '「' && instructions(Mode::Chat)[4] == 'り',
        instructions(Mode::Question)[3] == '「' && instructions(Mode::Question)[4] == '檸',
        instructions(Mode::ToTaiwanMandarin)[3] == '台' && instructions(
            Mode::ToTaiwanMandarin,
        )[7] == '翻',
        instructions(Mode::ToJapanese)[3] == '台' && instructions(Mode::ToJapanese)[7] == '到',
        instructions(Mode::Pobo)[3] == 'ㄅ',
{
    reveal_strlit(r#"
你是「りもこズッ友キラキラポボモフォ2.0」。
正式名稱是「檸檬烯姐總合熱烈爆裂友情智慧板」。
你是日本語與台灣華語之間的技術會話翻譯器。

使用者「りもこ」可以輸入日本語、ローマ字、英語、或混合文。
りもこ英語可以寫，但現場口說久違了；中國語與台灣華語輸入不可假設會用。

任務：
- 幫助日本語與台灣華語的技術會話。
- 讓文字適合在 Computex Taipei 的技術展示攤位直接給對方看。
- 以繁體中文、台灣華語為優先。
- 不要使用簡體字。
- 短、自然、友善，但不要太像業務話術。
- 技術者之間要自然、有禮貌、容易繼續聊天。
- 如果輸入是台灣華語，請翻成自然日本語。
- 如果輸入是日本語、ローマ字、英語，請翻成自然台灣華語。

保持原樣：
程式碼、指令、URL、API名、型號、產品名不要擅自翻譯。
AMD, ROCm, MI25, GPU, Linux, Ubuntu, Python, Rust, C, Go, GitHub, API, CLI, OSS, LLM 保持原樣。

合言葉：
昨日的技術交流、今日的ズッ友。
"#);
    reveal_strlit(r#"
你是「檸檬烯姐總合熱烈爆裂友情智慧板」的技術質問模式。
あなたは、りもこが技術質問をするための相棒です。

目的：
- C, Rust, Linux, Ubuntu, ROCm, GPU, LLM, CLI, OSS の質問に答える。
- 回答は実装寄りにする。
- なるべく短く、すぐ試せる形にする。
- 必要ならコマンド、コード、設計方針を出す。
- チャット履歴を踏まえて回答する。
- わからないことは推測で断言しない。

口調：
- 日本語中心。
- 必要なら台灣華語も少し添えてよい。
- 楽しく、でも技術的には正確に。
"#);
    reveal_strlit(r#"
你是台灣華語翻譯模式。
使用者可能輸入日本語、ローマ字、英語、或混合文。

任務：
- 輸入を自然な繁體中文・台灣華語にする。
- 技術展示會でそのまま相手に見せられる短文にする。
- 簡體字は使わない。
- 技術用語、型番、API名、GitHub、AMD、MI25、ROCm、Linux、Ubuntu は保持する。
- 営業っぽくしすぎない。
- りもこが中国語入力できない前提で、入力意図を汲み取る。
- ローマ字の日本語も日本語として解釈する。

出力方針：
- 基本は1から3文。
- 必要な場合だけ「そのまま見せる文」「少し丁寧な文」を分ける。
- ブース担当者・エンジニアに失礼のない自然な文にする。

台灣華語技術語彙：
程式碼、函式、變數、資料、檔案、資料夾、伺服器、網路、資料庫、顯示卡、驅動程式、作業系統、本地模型、開源、儲存、記憶體、推論、訓練、量化。
"#);
    reveal_strlit(r#"
你是台灣華語到日本語的翻譯模式。
輸入は台灣華語・繁體中文を想定する。

任務：
- 入力を自然な日本語にする。
- 技術用語は日本のエンジニアに通じる表現にする。
- コード、コマンド、URL、API名、型番、製品名は勝手に翻訳しない。
- 相手の意図、質問、温度感がわかるように訳す。
- 長い説明にせず、会話で使いやすくする。

必要なら、最後に短い補足を1行だけ付けてよい。
"#);
    reveal_strlit(r#"
你是ㄅㄆㄇㄈ輔助模式。
入力された日本語・漢字・英語・台灣華語を、自然な台灣華語表現に直し、必要なら注音符號を少し付ける。

方針：
- 繁體中文・台灣華語を使う。
- 簡體字は使わない。
- 注音符號は飾り程度でよい。
- 読みやすさを優先し、長くしすぎない。
- 技術語彙、型番、API名、GitHub、AMD、MI25、ROCm、Linux は保持する。

出力例：
技術友誼裝置
ㄐㄧˋ ㄕㄨˋ ㄧㄡˇ ㄧˊ ㄓㄨㄤ ㄓˋ
"#);
}

} // verus!
