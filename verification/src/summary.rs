use vstd::prelude::*;
use vstd::string::StringExecFns;
use crate::config::{Config, SummaryConfig};
use crate::dates::{format_ymd, is_datetime, ymd};
use crate::fetcher::{days_between, days_between_exec};
use crate::models::{RepoView, Repository, Summary, clone_opt_string};
use crate::text::{
    at_char_boundary, byte_len, byte_prefix, decimal, decimal_string, join, join_spec,
    prefix_bytes, str_eq, trim, trim_spec,
};

verus! {

/// Whether `language` asks for Chinese.
pub open spec fn is_zh(language: Seq<char>) -> bool {
    language == "zh"@
}

/// A one-element sequence when `cond` holds, else an empty one.
pub open spec fn when(cond: bool, s: Seq<char>) -> Seq<Seq<char>> {
    if cond {
        seq![s]
    } else {
        Seq::empty()
    }
}

/// The highlights of a repository at time `now`: popular (more than 1000
/// stars), actively maintained (more than 100 forks), recently updated (at
/// most 7 days ago), in the chosen language.
pub open spec fn highlight_list(r: RepoView, zh: bool, now: i64) -> Seq<Seq<char>> {
    when(r.stars > 1000, if zh { "热门项目"@ } else { "popular project"@ })
        + when(r.forks > 100, if zh { "活跃维护"@ } else { "actively maintained"@ })
        + when(
        days_between(now, r.updated_at) <= 7,
        if zh { "最近更新"@ } else { "recently updated"@ },
    )
}

/// The description of `r`, or "No description".
pub open spec fn description_or_default(r: RepoView) -> Seq<char> {
    match r.description {
        Some(d) => d,
        None => "No description"@,
    }
}

/// How many bytes of the description a simple summary keeps.
pub open spec fn description_limit(zh: bool) -> int {
    if zh {
        100
    } else {
        150
    }
}

/// The description cut at `limit` bytes when it is longer.
pub open spec fn clipped(desc: Seq<char>, limit: int) -> Seq<char> {
    if byte_len(desc) > limit {
        byte_prefix(desc, limit)
    } else {
        desc
    }
}

/// The recommendation sentence of a simple summary.
pub open spec fn highlight_text(h: Seq<Seq<char>>, zh: bool) -> Seq<char> {
    if h.len() > 0 {
        join_spec(h, if zh { "，"@ } else { ", "@ })
    } else if zh {
        "新兴项目，值得关注"@
    } else {
        "emerging project worth watching"@
    }
}

/// The text of a simple summary: the (clipped) description, then the highlights.
pub open spec fn simple_content(desc: Seq<char>, h: Seq<Seq<char>>, zh: bool) -> Seq<char> {
    clipped(desc, description_limit(zh)) + (if zh { "。"@ } else { ". "@ }) + highlight_text(h, zh)
}

/// `Some(s)`'s text, or `default`.
pub open spec fn or_default(s: Option<Seq<char>>, default: Seq<char>) -> Seq<char> {
    match s {
        Some(t) => t,
        None => default,
    }
}

/// The key points of a simple summary: stars, forks, language, last update.
pub open spec fn simple_key_points(r: RepoView, zh: bool) -> Seq<Seq<char>> {
    seq![
        "⭐ "@ + decimal(r.stars as nat) + " stars"@,
        "🍴 "@ + decimal(r.forks as nat) + " forks"@,
        "💻 "@ + or_default(r.language, if zh { "未知"@ } else { "Unknown"@ }),
        (if zh { "📅 最近更新: "@ } else { "📅 Updated: "@ }) + ymd(r.updated_at),
    ]
}

/// Whether a simple summary can be made of `r` without cutting a character
/// of its description in two (where slicing the description panics); the
/// description's length in bytes fits in `usize`, as every string's does.
pub open spec fn clip_ok(r: RepoView, zh: bool) -> bool {
    let d = description_or_default(r);
    &&& byte_len(d) <= usize::MAX
    &&& byte_len(d) > description_limit(zh) ==> at_char_boundary(d, description_limit(zh))
}

/// The view of a summary.
pub open spec fn summary_is(s: Summary, content: Seq<char>, language: Seq<char>, key_points: Seq<Seq<char>>) -> bool {
    &&& s.content@ == content
    &&& s.language@ == language
    &&& s.key_points.deep_view() == key_points
}

/// How a summary gets made.
#[derive(Debug)]
pub enum SummaryRoute {
    /// Rule-based, from the repository's own data.
    Simple,
    /// Through the OpenAI chat API with this key (falling back to simple).
    OpenAi { api_key: String },
    /// Through a local model (falling back to simple).
    Local,
}

/// What goes wrong when asking a language model.
#[derive(Debug, PartialEq, Eq, Structural)]
pub enum SummaryError {
    /// The reply holds no text at `choices[0].message.content`.
    InvalidResponse,
}

/// One choice of a chat completion reply: its message's text, if it is a string.
pub struct ChatChoice {
    pub content: Option<String>,
}

/// A chat completion reply, as far as the summary reads it.
pub struct ChatReply {
    pub choices: Vec<ChatChoice>,
}

/// Makes the summaries of repositories.
pub struct SummaryGenerator {
    summary: SummaryConfig,
    github_token: String,
}

fn cat(a: &str, b: &str) -> (r: String)
    ensures
        r@ == a@ + b@,
{
    let mut r = a.to_owned();
    r.append(b);
    r
}

fn cat3(a: &str, b: &str, c: &str) -> (r: String)
    ensures
        r@ == a@ + b@ + c@,
{
    let mut r = a.to_owned();
    r.append(b);
    r.append(c);
    r
}

fn push_string(v: &mut Vec<String>, s: String)
    ensures
        final(v).deep_view() == old(v).deep_view().push(s@),
{
    let ghost old_v = v.deep_view();
    v.push(s);
    assert(v.deep_view() =~= old_v.push(s@));
}

/// The highlights of `repo` at time `now` (Unix seconds).
pub fn extract_highlight_list(repo: &Repository, language: &str, now: i64) -> (r: Vec<String>)
    ensures
        r.deep_view() == highlight_list(repo@, is_zh(language@), now),
{
    highlights_for(repo, str_eq(language, "zh"), now)
}

fn highlights_for(repo: &Repository, zh: bool, now: i64) -> (r: Vec<String>)
    ensures
        r.deep_view() == highlight_list(repo@, zh, now),
{
    let mut h: Vec<String> = Vec::new();
    if repo.stars > 1000 {
        push_string(&mut h, String::from_str(if zh { "热门项目" } else { "popular project" }));
    }
    if repo.forks > 100 {
        push_string(&mut h, String::from_str(if zh { "活跃维护" } else { "actively maintained" }));
    }
    if days_between_exec(now, repo.updated_at) <= 7 {
        push_string(&mut h, String::from_str(if zh { "最近更新" } else { "recently updated" }));
    }
    assert(h.deep_view() =~= highlight_list(repo@, zh, now));
    h
}

/// The highlights as one text, one per line, or a default when there is none.
pub fn extract_highlights(repo: &Repository, language: &str, now: i64) -> (r: String)
    ensures
        r@ == ({
            let h = highlight_list(repo@, is_zh(language@), now);
            if h.len() > 0 {
                join_spec(h, "\n"@)
            } else if is_zh(language@) {
                "新兴项目，值得关注"@
            } else {
                "Emerging project worth watching"@
            }
        }),
{
    let h = extract_highlight_list(repo, language, now);
    if h.len() == 0 {
        if str_eq(language, "zh") {
            String::from_str("新兴项目，值得关注")
        } else {
            String::from_str("Emerging project worth watching")
        }
    } else {
        join(&h, "\n")
    }
}

/// The text and key points of a simple summary in Chinese (`zh`) or English.
fn simple_parts(repo: &Repository, zh: bool, now: i64) -> (r: (String, Vec<String>))
    requires
        clip_ok(repo@, zh),
        is_datetime(repo.updated_at as int),
    ensures
        r.0@ == simple_content(description_or_default(repo@), highlight_list(repo@, zh, now), zh),
        r.1.deep_view() == simple_key_points(repo@, zh),
{
    let desc: &str = match &repo.description {
        Some(d) => d.as_str(),
        None => "No description",
    };
    assert(desc@ == description_or_default(repo@));
    let h = highlights_for(repo, zh, now);
    let ht = if h.len() > 0 {
        join(&h, if zh { "，" } else { ", " })
    } else if zh {
        String::from_str("新兴项目，值得关注")
    } else {
        String::from_str("emerging project worth watching")
    };
    let limit: usize = if zh { 100 } else { 150 };
    let head: &str = if desc.len() > limit {
        prefix_bytes(desc, limit)
    } else {
        desc
    };
    assert(ht@ == highlight_text(h.deep_view(), zh));
    assert(head@ == clipped(desc@, description_limit(zh)));
    let mut content = head.to_owned();
    content.append(if zh { "。" } else { ". " });
    content.append(ht.as_str());

    let mut kp: Vec<String> = Vec::new();
    let stars = decimal_string(repo.stars as u64);
    push_string(&mut kp, cat3("⭐ ", stars.as_str(), " stars"));
    let forks = decimal_string(repo.forks as u64);
    push_string(&mut kp, cat3("🍴 ", forks.as_str(), " forks"));
    let lang: &str = match &repo.language {
        Some(l) => l.as_str(),
        None => if zh { "未知" } else { "Unknown" },
    };
    push_string(&mut kp, cat("💻 ", lang));
    let date = format_ymd(repo.updated_at);
    push_string(&mut kp, cat(if zh { "📅 最近更新: " } else { "📅 Updated: " }, date.as_str()));
    assert(kp.deep_view() =~= simple_key_points(repo@, zh));
    (content, kp)
}

impl SummaryGenerator {
    /// Whether summaries are enabled.
    pub closed spec fn enabled(&self) -> bool {
        self.summary.enabled
    }

    /// The configured provider.
    pub closed spec fn provider(&self) -> Seq<char> {
        self.summary.provider@
    }

    /// The configured API key.
    pub closed spec fn api_key(&self) -> Option<Seq<char>> {
        self.summary.api_key.deep_view()
    }

    /// The configured model.
    pub closed spec fn model(&self) -> Option<Seq<char>> {
        self.summary.model.deep_view()
    }

    /// The configured API base URL.
    pub closed spec fn base_url(&self) -> Option<Seq<char>> {
        self.summary.base_url.deep_view()
    }

    /// The GitHub token used to read READMEs.
    pub closed spec fn token(&self) -> Seq<char> {
        self.github_token@
    }

    /// A generator using `config`'s summary settings and GitHub token.
    pub fn new(config: &Config) -> (r: SummaryGenerator)
        ensures
            r.enabled() == config.summary.enabled,
            r.provider() == config.summary.provider@,
            r.api_key() == config.summary.api_key.deep_view(),
            r.model() == config.summary.model.deep_view(),
            r.base_url() == config.summary.base_url.deep_view(),
            r.token() == config.github_token@,
    {
        SummaryGenerator {
            summary: SummaryConfig {
                enabled: config.summary.enabled,
                provider: config.summary.provider.clone(),
                api_key: clone_opt_string(&config.summary.api_key),
                model: clone_opt_string(&config.summary.model),
                base_url: clone_opt_string(&config.summary.base_url),
            },
            github_token: config.github_token.clone(),
        }
    }

    /// How `generate_summary` makes a summary: simple when summaries are
    /// disabled; through OpenAI when the provider is "openai" and a key is
    /// configured (simple without a key); through the local model for
    /// "local"; simple for any other provider.
    pub fn route(&self) -> (r: SummaryRoute)
        ensures
            match r {
                SummaryRoute::Simple => !self.enabled() || (self.provider() == "openai"@
                    && self.api_key() is None) || (self.provider() != "openai"@
                    && self.provider() != "local"@),
                SummaryRoute::OpenAi { api_key } => self.enabled() && self.provider()
                    == "openai"@ && self.api_key() == Some(api_key@),
                SummaryRoute::Local => self.enabled() && self.provider() == "local"@,
            },
    {
        if !self.summary.enabled {
            return SummaryRoute::Simple;
        }
        if str_eq(self.summary.provider.as_str(), "openai") {
            match &self.summary.api_key {
                Some(k) => SummaryRoute::OpenAi { api_key: k.clone() },
                None => SummaryRoute::Simple,
            }
        } else if str_eq(self.summary.provider.as_str(), "local") {
            SummaryRoute::Local
        } else {
            SummaryRoute::Simple
        }
    }

    /// A rule-based summary of `repo` in `language` ("zh" for Chinese,
    /// English otherwise) at time `now`: the description clipped to 100 bytes
    /// (Chinese) or 150 bytes (English), the highlights, and four key points.
    pub fn generate_simple_summary(&self, repo: &Repository, language: &str, now: i64) -> (r: Summary)
        requires
            clip_ok(repo@, is_zh(language@)),
            is_datetime(repo.updated_at as int),
        ensures
            summary_is(
                r,
                simple_content(
                    description_or_default(repo@),
                    highlight_list(repo@, is_zh(language@), now),
                    is_zh(language@),
                ),
                language@,
                simple_key_points(repo@, is_zh(language@)),
            ),
    {
        let zh = str_eq(language, "zh");
        let (content, key_points) = simple_parts(repo, zh, now);
        Summary { content, language: language.to_owned(), key_points }
    }
}


/// The README location of `r` in GitHub's API.
pub open spec fn readme_url_spec(r: RepoView) -> Seq<char> {
    "https://api.github.com/repos/"@ + r.full_name + "/readme"@
}

/// The prompt asking a language model to summarise `r` given its README.
pub open spec fn prompt_spec(r: RepoView, zh: bool, readme: Seq<char>) -> Seq<char> {
    if zh {
        "请为以下 GitHub 项目生成一个500字以内的简洁总结，重点介绍项目的核心功能、亮点和提供的主要服务。\n\n项目信息:\n名称: "@
            + r.name + "\n描述: "@ + or_default(r.description, "无描述"@) + "\nStars: "@
            + decimal(r.stars as nat) + "\n语言: "@ + or_default(r.language, "未知"@)
            + "\nREADME内容:\n"@ + readme
            + "\n\n要求:\n1. 字数控制在500字以内，如果内容特别丰富可以最多扩展到600字\n2. 突出最有价值的特性和服务内容\n3. 语言简洁专业\n4. 直接输出总结内容，不要额外的格式标记"@
    } else {
        "Generate a concise summary (max 500 characters) for this GitHub project, highlighting core features, key highlights and main services.\n\nProject Info:\nName: "@
            + r.name + "\nDescription: "@ + or_default(r.description, "No description"@)
            + "\nStars: "@ + decimal(r.stars as nat) + "\nLanguage: "@ + or_default(
            r.language,
            "Unknown"@,
        ) + "\nREADME Content:\n"@ + readme
            + "\n\nRequirements:\n1. Keep within 500 characters, allow up to 600 if content is particularly rich\n2. Highlight most valuable features and services\n3. Professional and concise\n4. Output summary directly without extra formatting"@
    }
}

/// The key points of a model-made summary: stars, language, last update.
pub open spec fn model_key_points(r: RepoView, zh: bool) -> Seq<Seq<char>> {
    seq![
        "⭐ "@ + decimal(r.stars as nat) + " stars"@,
        "💻 "@ + or_default(r.language, "Unknown"@),
        (if zh { "📅 更新: "@ } else { "📅 Updated: "@ }) + ymd(r.updated_at),
    ]
}

/// The text of a chat reply: its first choice's message, trimmed.
pub open spec fn reply_text(choices: Seq<Option<Seq<char>>>) -> Option<Seq<char>> {
    if choices.len() > 0 {
        match choices[0] {
            Some(t) => Some(trim_spec(t)),
            None => None,
        }
    } else {
        None
    }
}

/// Where `fetch_readme` reads the raw README of `repo`.
pub fn readme_url(repo: &Repository) -> (r: String)
    ensures
        r@ == readme_url_spec(repo@),
{
    cat3("https://api.github.com/repos/", repo.full_name.as_str(), "/readme")
}

/// The prompt of `call_openai_api` for `repo` in `language`, quoting `readme`.
pub fn openai_prompt(repo: &Repository, language: &str, readme: &str) -> (r: String)
    ensures
        r@ == prompt_spec(repo@, is_zh(language@), readme@),
{
    let zh = str_eq(language, "zh");
    let stars = decimal_string(repo.stars as u64);
    let mut p = String::new();
    if zh {
        p.append("请为以下 GitHub 项目生成一个500字以内的简洁总结，重点介绍项目的核心功能、亮点和提供的主要服务。\n\n项目信息:\n名称: ");
        p.append(repo.name.as_str());
        p.append("\n描述: ");
        match &repo.description {
            Some(d) => p.append(d.as_str()),
            None => p.append("无描述"),
        }
        p.append("\nStars: ");
        p.append(stars.as_str());
        p.append("\n语言: ");
        match &repo.language {
            Some(l) => p.append(l.as_str()),
            None => p.append("未知"),
        }
        p.append("\nREADME内容:\n");
        p.append(readme);
        p.append("\n\n要求:\n1. 字数控制在500字以内，如果内容特别丰富可以最多扩展到600字\n2. 突出最有价值的特性和服务内容\n3. 语言简洁专业\n4. 直接输出总结内容，不要额外的格式标记");
    } else {
        p.append("Generate a concise summary (max 500 characters) for this GitHub project, highlighting core features, key highlights and main services.\n\nProject Info:\nName: ");
        p.append(repo.name.as_str());
        p.append("\nDescription: ");
        match &repo.description {
            Some(d) => p.append(d.as_str()),
            None => p.append("No description"),
        }
        p.append("\nStars: ");
        p.append(stars.as_str());
        p.append("\nLanguage: ");
        match &repo.language {
            Some(l) => p.append(l.as_str()),
            None => p.append("Unknown"),
        }
        p.append("\nREADME Content:\n");
        p.append(readme);
        p.append("\n\nRequirements:\n1. Keep within 500 characters, allow up to 600 if content is particularly rich\n2. Highlight most valuable features and services\n3. Professional and concise\n4. Output summary directly without extra formatting");
    }
    p
}

/// The summary text of a chat reply: `choices[0].message.content`, trimmed;
/// an error when that is missing or not a string.
pub fn reply_content(reply: &ChatReply) -> (r: Result<String, SummaryError>)
    ensures
        match reply_text(reply.choices@.map_values(|c: ChatChoice| c.content.deep_view())) {
            Some(t) => r matches Ok(s) && s@ == t,
            None => r == Err::<String, SummaryError>(SummaryError::InvalidResponse),
        },
{
    let ghost cs = reply.choices@.map_values(|c: ChatChoice| c.content.deep_view());
    if reply.choices.len() == 0 {
        return Err(SummaryError::InvalidResponse);
    }
    assert(cs[0] == reply.choices@[0].content.deep_view());
    match &reply.choices[0].content {
        Some(t) => Ok(trim(t.as_str())),
        None => Err(SummaryError::InvalidResponse),
    }
}

/// The summary of `repo` made of a model's text `content`, with the key
/// points of model-made summaries.
pub fn model_summary(repo: &Repository, language: &str, content: String) -> (r: Summary)
    requires
        is_datetime(repo.updated_at as int),
    ensures
        summary_is(r, content@, language@, model_key_points(repo@, is_zh(language@))),
{
    let zh = str_eq(language, "zh");
    let mut kp: Vec<String> = Vec::new();
    let stars = decimal_string(repo.stars as u64);
    push_string(&mut kp, cat3("⭐ ", stars.as_str(), " stars"));
    let lang: &str = match &repo.language {
        Some(l) => l.as_str(),
        None => "Unknown",
    };
    push_string(&mut kp, cat("💻 ", lang));
    let date = format_ymd(repo.updated_at);
    push_string(&mut kp, cat(if zh { "📅 更新: " } else { "📅 Updated: " }, date.as_str()));
    assert(kp.deep_view() =~= model_key_points(repo@, zh));
    Summary { content, language: language.to_owned(), key_points: kp }
}

impl SummaryGenerator {
    /// The chat completions endpoint: the configured base URL (OpenAI's by
    /// default) followed by `/chat/completions`.
    pub fn chat_completions_url(&self) -> (r: String)
        ensures
            r@ == or_default(self.base_url(), "https://api.openai.com/v1"@) + "/chat/completions"@,
    {
        match &self.summary.base_url {
            Some(b) => cat(b.as_str(), "/chat/completions"),
            None => cat("https://api.openai.com/v1", "/chat/completions"),
        }
    }

    /// The chat model: the configured one, `gpt-4o-mini` by default.
    pub fn chat_model(&self) -> (r: String)
        ensures
            r@ == or_default(self.model(), "gpt-4o-mini"@),
    {
        match &self.summary.model {
            Some(m) => m.clone(),
            None => String::from_str("gpt-4o-mini"),
        }
    }

    /// The `Authorization` header for GitHub: `token <github token>`.
    pub fn github_authorization(&self) -> (r: String)
        ensures
            r@ == "token "@ + self.token(),
    {
        cat("token ", self.github_token.as_str())
    }
}

impl SummaryGenerator {
    /// The summary after asking a language model: built from its text when it
    /// answered (`Some`), otherwise (the call failed, or the local model is
    /// not available) the simple summary, so a failing model never stops
    /// the summaries.
    pub fn finish_model_summary(&self, repo: &Repository, language: &str, now: i64, answer: Option<String>) -> (r: Summary)
        requires
            clip_ok(repo@, is_zh(language@)),
            is_datetime(repo.updated_at as int),
        ensures
            match answer {
                Some(c) => summary_is(r, c@, language@, model_key_points(repo@, is_zh(language@))),
                None => summary_is(
                    r,
                    simple_content(
                        description_or_default(repo@),
                        highlight_list(repo@, is_zh(language@), now),
                        is_zh(language@),
                    ),
                    language@,
                    simple_key_points(repo@, is_zh(language@)),
                ),
            },
    {
        match answer {
            Some(c) => model_summary(repo, language, c),
            None => self.generate_simple_summary(repo, language, now),
        }
    }
}

/// A summary keeps the whole description when it fits in the limit;
/// otherwise exactly its first `limit` bytes.
pub proof fn law_description_clipped_to_limit(desc: Seq<char>, limit: int)
    requires
        0 <= limit,
        byte_len(desc) > limit ==> at_char_boundary(desc, limit),
    ensures
        byte_len(desc) <= limit ==> clipped(desc, limit) == desc,
        byte_len(desc) > limit ==> byte_len(clipped(desc, limit)) == limit
            && vstd::utf8::encode_utf8(clipped(desc, limit)) == vstd::utf8::encode_utf8(desc).subrange(
            0,
            limit,
        ),
{
    if byte_len(desc) > limit {
        let bytes = vstd::utf8::encode_utf8(desc);
        vstd::utf8::encode_utf8_valid_utf8(desc);
        vstd::utf8::valid_utf8_split(bytes, limit);
        vstd::utf8::decode_utf8_encode_utf8(bytes.subrange(0, limit));
    }
}

/// The highlights of a repository: "popular project" exactly when it has more
/// than 1000 stars, "actively maintained" exactly when it has more than 100
/// forks, "recently updated" exactly when at most 7 whole days passed from
/// its last update to `now` (in Chinese, the same three in Chinese); nothing
/// else, none twice, in that order.
pub proof fn law_highlights_follow_stars_forks_and_update(r: RepoView, zh: bool, now: i64)
    ensures
        ({
            let h = highlight_list(r, zh, now);
            let popular = if zh { "热门项目"@ } else { "popular project"@ };
            let active = if zh { "活跃维护"@ } else { "actively maintained"@ };
            let recent = if zh { "最近更新"@ } else { "recently updated"@ };
            &&& h.contains(popular) <==> r.stars > 1000
            &&& h.contains(active) <==> r.forks > 100
            &&& h.contains(recent) <==> days_between(now, r.updated_at) <= 7
            &&& forall|k: int| 0 <= k < h.len() ==> #[trigger] h[k] == popular || h[k] == active || h[k] == recent
            &&& forall|k1: int, k2: int|
                0 <= k1 < k2 < h.len() ==> #[trigger] h[k1] != #[trigger] h[k2] && h[k1] != recent && h[k2] != popular
        }),
{
    reveal_strlit("热门项目");
    reveal_strlit("活跃维护");
    reveal_strlit("最近更新");
    reveal_strlit("popular project");
    reveal_strlit("actively maintained");
    reveal_strlit("recently updated");
    let h = highlight_list(r, zh, now);
    let popular = if zh { "热门项目"@ } else { "popular project"@ };
    let active = if zh { "活跃维护"@ } else { "actively maintained"@ };
    let recent = if zh { "最近更新"@ } else { "recently updated"@ };
    assert(popular != active && popular != recent && active != recent) by {
        if zh {
            assert(popular[0] != active[0] && popular[0] != recent[0] && active[0] != recent[0]);
        } else {
            assert(popular[0] != active[0] && popular[0] != recent[0] && active[0] != recent[0]);
        }
    }
    let a = when(r.stars > 1000, popular);
    let b = when(r.forks > 100, active);
    let c = when(days_between(now, r.updated_at) <= 7, recent);
    assert(h =~= a + b + c);
    assert(h.contains(popular) <==> r.stars > 1000) by {
        if r.stars > 1000 {
            assert(h[0] == popular);
        } else {
            assert forall|k: int| 0 <= k < h.len() implies h[k] != popular by {
                if k < b.len() {
                    assert(h[k] == b[k]);
                } else {
                    assert(h[k] == c[k - b.len()]);
                }
            }
        }
    }
    assert(h.contains(active) <==> r.forks > 100) by {
        if r.forks > 100 {
            assert(h[a.len() as int] == active);
        } else {
            assert forall|k: int| 0 <= k < h.len() implies h[k] != active by {
                if k < a.len() {
                    assert(h[k] == a[k]);
                } else {
                    assert(h[k] == c[k - a.len()]);
                }
            }
        }
    }
    assert(h.contains(recent) <==> days_between(now, r.updated_at) <= 7) by {
        if days_between(now, r.updated_at) <= 7 {
            assert(h[(a.len() + b.len()) as int] == recent);
        } else {
            assert forall|k: int| 0 <= k < h.len() implies h[k] != recent by {
                if k < a.len() {
                    assert(h[k] == a[k]);
                } else {
                    assert(h[k] == b[k - a.len()]);
                }
            }
        }
    }
    assert forall|k1: int, k2: int|
        0 <= k1 < k2 < h.len() implies #[trigger] h[k1] != #[trigger] h[k2] && h[k1] != recent && h[k2] != popular by {
        assert(a.len() <= 1 && b.len() <= 1 && c.len() <= 1);
        if k1 < a.len() {
            assert(h[k1] == popular);
            if k2 < a.len() + b.len() {
                assert(h[k2] == b[k2 - a.len()]);
            } else {
                assert(h[k2] == c[k2 - a.len() - b.len()]);
            }
        } else if k1 < a.len() + b.len() {
            assert(h[k1] == active);
            assert(h[k2] == c[k2 - a.len() - b.len()]);
        }
    }
    assert forall|k: int| 0 <= k < h.len() implies #[trigger] h[k] == popular || h[k] == active || h[k] == recent by {
        if k < a.len() {
            assert(h[k] == a[k]);
        } else if k < a.len() + b.len() {
            assert(h[k] == b[k - a.len()]);
        } else {
            assert(h[k] == c[k - a.len() - b.len()]);
        }
    }
}

/// The highlights depend on nothing but the stars, the forks and the time of
/// the last update: two repositories that agree on these (whatever their
/// creation times, names or descriptions) get the same highlights.
pub proof fn law_highlights_ignore_other_fields(r1: RepoView, r2: RepoView, zh: bool, now: i64)
    requires
        r1.stars == r2.stars,
        r1.forks == r2.forks,
        r1.updated_at == r2.updated_at,
    ensures
        highlight_list(r1, zh, now) == highlight_list(r2, zh, now),
{
}
} // verus!
