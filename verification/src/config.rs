use vstd::prelude::*;
use vstd::string::StringExecFns;
use crate::text::str_eq;

verus! {

/// Debugging switches.
pub struct DebugConfig {
    pub mock_mode: bool,
}

impl Default for DebugConfig {
    fn default() -> (r: DebugConfig)
        ensures
            !r.mock_mode,
    {
        DebugConfig { mock_mode: false }
    }
}

/// The default of `allow_recommend_again` when the configuration omits it.
pub fn default_allow_recommend_again() -> (r: bool)
    ensures
        r,
{
    true
}

/// The default of `min_stars` when the configuration omits it.
pub fn default_min_stars() -> (r: u32)
    ensures
        r == 10,
{
    10
}

/// A feed category: repositories whose name contains one of `keywords` or
/// that carry one of `topics`; with neither, the top `max_items`.
pub struct Category {
    pub name: String,
    /// "zh" or "en".
    pub language: String,
    pub keywords: Vec<String>,
    pub topics: Vec<String>,
    pub max_items: usize,
}

/// How summaries are made.
pub struct SummaryConfig {
    pub enabled: bool,
    /// "openai", "local" or "simple".
    pub provider: String,
    pub api_key: Option<String>,
    pub model: Option<String>,
    pub base_url: Option<String>,
}

/// How card images are rendered.
pub struct ImageConfig {
    pub enabled: bool,
    pub width: u32,
    pub height: u32,
    pub background_color: String,
    pub text_color: String,
    pub font_size: u32,
}

/// Where posts are pushed.
pub struct PushConfig {
    pub enabled: bool,
    pub platforms: Vec<PlatformConfig>,
}

/// One publishing platform.  `extra` holds the platform's further settings,
/// each with its text when the setting is a string.
pub struct PlatformConfig {
    pub name: String,
    pub username: Option<String>,
    pub password: Option<String>,
    pub extra: Vec<(String, Option<String>)>,
}

/// The whole configuration.
pub struct Config {
    pub github_token: String,
    pub languages: Vec<String>,
    pub categories: Vec<Category>,
    pub summary: SummaryConfig,
    pub image: ImageConfig,
    pub push: PushConfig,
    pub allow_recommend_again: bool,
    pub min_stars: u32,
    pub debug: DebugConfig,
}

/// The values that the environment may set over the configuration file
/// (`GITHUB_TOKEN`, `OPENAI_API_KEY`, `CSDN_USERNAME`, `CSDN_PASSWORD`,
/// `DEBUG_MOCK_MODE`); `None` where the variable is unset.
pub struct EnvOverrides {
    pub github_token: Option<String>,
    pub openai_api_key: Option<String>,
    pub csdn_username: Option<String>,
    pub csdn_password: Option<String>,
    pub debug_mock_mode: Option<String>,
}

/// `s.parse::<bool>().unwrap_or(false)`: only "true" gives `true`.
pub open spec fn parse_bool_or_false(s: Seq<char>) -> bool {
    s == "true"@
}

/// The value of an optional override: the override where given, else the old value.
pub open spec fn overridden(old: Option<Seq<char>>, new: Option<Seq<char>>) -> Option<Seq<char>> {
    match new {
        Some(v) => Some(v),
        None => old,
    }
}

fn vec_of_strs(a: &str, b: &str) -> (r: Vec<String>)
    ensures
        r.deep_view() == seq![a@, b@],
{
    let mut r: Vec<String> = Vec::new();
    r.push(a.to_owned());
    r.push(b.to_owned());
    assert(r.deep_view() =~= seq![a@, b@]);
    r
}

fn vec_of_three(a: &str, b: &str, c: &str) -> (r: Vec<String>)
    ensures
        r.deep_view() == seq![a@, b@, c@],
{
    let mut r: Vec<String> = Vec::new();
    r.push(a.to_owned());
    r.push(b.to_owned());
    r.push(c.to_owned());
    assert(r.deep_view() =~= seq![a@, b@, c@]);
    r
}

fn take_opt(s: &Option<String>) -> (r: Option<String>)
    ensures
        r.deep_view() == s.deep_view(),
{
    match s {
        Some(t) => Some(t.clone()),
        None => None,
    }
}

impl Config {
    /// The built-in configuration, used when no configuration file can be
    /// read; `github_token` is what the environment gives (empty if unset).
    pub fn default_with_token(github_token: String) -> (r: Config)
        ensures
            r.github_token@ == github_token@,
            r.languages.deep_view() == seq!["rust"@, "python"@, "javascript"@],
            r.categories.len() == 2,
            r.categories[0].name@ == "backend"@,
            r.categories[0].language@ == "zh"@,
            r.categories[0].keywords.deep_view() == seq!["backend"@, "server"@, "api"@],
            r.categories[0].topics.deep_view() == seq!["backend"@, "api"@],
            r.categories[0].max_items == 20,
            r.categories[1].name@ == "frontend"@,
            r.categories[1].language@ == "zh"@,
            r.categories[1].keywords.deep_view() == seq!["frontend"@, "ui"@, "react"@],
            r.categories[1].topics.deep_view() == seq!["frontend"@, "ui"@],
            r.categories[1].max_items == 20,
            r.summary.enabled,
            r.summary.provider@ == "simple"@,
            r.summary.api_key is None,
            r.summary.model is None,
            r.summary.base_url is None,
            r.image.enabled,
            r.image.width == 1200,
            r.image.height == 400,
            r.image.background_color@ == "#1a1a1a"@,
            r.image.text_color@ == "#ffffff"@,
            r.image.font_size == 24,
            !r.push.enabled,
            r.push.platforms.len() == 0,
            r.allow_recommend_again,
            r.min_stars == 10,
            !r.debug.mock_mode,
    {
        let mut categories: Vec<Category> = Vec::new();
        categories.push(
            Category {
                name: String::from_str("backend"),
                language: String::from_str("zh"),
                keywords: vec_of_three("backend", "server", "api"),
                topics: vec_of_strs("backend", "api"),
                max_items: 20,
            },
        );
        categories.push(
            Category {
                name: String::from_str("frontend"),
                language: String::from_str("zh"),
                keywords: vec_of_three("frontend", "ui", "react"),
                topics: vec_of_strs("frontend", "ui"),
                max_items: 20,
            },
        );
        Config {
            github_token,
            languages: vec_of_three("rust", "python", "javascript"),
            categories,
            summary: SummaryConfig {
                enabled: true,
                provider: String::from_str("simple"),
                api_key: None,
                model: None,
                base_url: None,
            },
            image: ImageConfig {
                enabled: true,
                width: 1200,
                height: 400,
                background_color: String::from_str("#1a1a1a"),
                text_color: String::from_str("#ffffff"),
                font_size: 24,
            },
            push: PushConfig { enabled: false, platforms: Vec::new() },
            allow_recommend_again: default_allow_recommend_again(),
            min_stars: default_min_stars(),
            debug: DebugConfig::default(),
        }
    }

    /// Lays the environment's values over a loaded configuration: the GitHub
    /// token and the OpenAI key where set, the credentials of every "csdn"
    /// platform where set, and the mock mode where `DEBUG_MOCK_MODE` is set
    /// (only "true" turns it on).  Nothing else changes.
    pub fn apply_env_overrides(&mut self, env: &EnvOverrides)
        ensures
            final(self).github_token@ == (match env.github_token {
                Some(t) => t@,
                None => old(self).github_token@,
            }),
            final(self).summary.api_key.deep_view() == overridden(
                old(self).summary.api_key.deep_view(),
                env.openai_api_key.deep_view(),
            ),
            final(self).summary.enabled == old(self).summary.enabled,
            final(self).summary.provider == old(self).summary.provider,
            final(self).summary.model == old(self).summary.model,
            final(self).summary.base_url == old(self).summary.base_url,
            final(self).languages == old(self).languages,
            final(self).categories == old(self).categories,
            final(self).image == old(self).image,
            final(self).push.enabled == old(self).push.enabled,
            final(self).push.platforms.len() == old(self).push.platforms.len(),
            forall|i: int|
                0 <= i < old(self).push.platforms.len() ==> {
                    let o = #[trigger] old(self).push.platforms[i];
                    let f = final(self).push.platforms[i];
                    let is_csdn = o.name@ == "csdn"@;
                    &&& f.name == o.name
                    &&& f.extra == o.extra
                    &&& f.username.deep_view() == (if is_csdn {
                        overridden(o.username.deep_view(), env.csdn_username.deep_view())
                    } else {
                        o.username.deep_view()
                    })
                    &&& f.password.deep_view() == (if is_csdn {
                        overridden(o.password.deep_view(), env.csdn_password.deep_view())
                    } else {
                        o.password.deep_view()
                    })
                },
            final(self).allow_recommend_again == old(self).allow_recommend_again,
            final(self).min_stars == old(self).min_stars,
            final(self).debug.mock_mode == (match env.debug_mock_mode {
                Some(v) => parse_bool_or_false(v@),
                None => old(self).debug.mock_mode,
            }),
    {
        let n = self.push.platforms.len();
        let ghost start = self.push.platforms@;
        let mut i: usize = 0;
        while i < n
            invariant
                n == self.push.platforms.len(),
                start.len() == n,
                start == old(self).push.platforms@,
                self.github_token == old(self).github_token,
                self.summary == old(self).summary,
                self.languages == old(self).languages,
                self.categories == old(self).categories,
                self.image == old(self).image,
                self.push.enabled == old(self).push.enabled,
                self.allow_recommend_again == old(self).allow_recommend_again,
                self.min_stars == old(self).min_stars,
                self.debug == old(self).debug,
                i <= n,
                forall|j: int|
                    i <= j < n ==> #[trigger] self.push.platforms@[j] == start[j],
                forall|j: int|
                    0 <= j < i ==> {
                        let o = #[trigger] start[j];
                        let f = self.push.platforms@[j];
                        let is_csdn = o.name@ == "csdn"@;
                        &&& f.name == o.name
                        &&& f.extra == o.extra
                        &&& f.username.deep_view() == (if is_csdn {
                            overridden(o.username.deep_view(), env.csdn_username.deep_view())
                        } else {
                            o.username.deep_view()
                        })
                        &&& f.password.deep_view() == (if is_csdn {
                            overridden(o.password.deep_view(), env.csdn_password.deep_view())
                        } else {
                            o.password.deep_view()
                        })
                    },
            decreases n - i,
        {
            if str_eq(self.push.platforms[i].name.as_str(), "csdn") {
                if let Some(u) = &env.csdn_username {
                    self.push.platforms[i].username = Some(u.clone());
                }
                if let Some(p) = &env.csdn_password {
                    self.push.platforms[i].password = Some(p.clone());
                }
            }
            i = i + 1;
        }
        if let Some(t) = &env.github_token {
            self.github_token = t.clone();
        }
        if let Some(k) = &env.openai_api_key {
            self.summary.api_key = Some(k.clone());
        }
        if let Some(m) = &env.debug_mock_mode {
            self.debug.mock_mode = str_eq(m.as_str(), "true");
        }
    }
}

impl PlatformConfig {
    /// The text of the setting `key`, if it is set to a string.
    pub fn string_setting(&self, key: &str) -> (r: Option<String>)
        ensures
            r.deep_view() == setting_value(self.extra.deep_view(), key@),
    {
        let mut i: usize = 0;
        while i < self.extra.len()
            invariant
                i <= self.extra.len(),
                forall|j: int| 0 <= j < i ==> self.extra.deep_view()[j].0 != key@,
            decreases self.extra.len() - i,
        {
            assert(self.extra.deep_view()[i as int].0 == self.extra[i as int].0@);
            if str_eq(self.extra[i].0.as_str(), key) {
                proof {
                    lemma_setting_value_at(self.extra.deep_view(), key@, i as int);
                }
                return take_opt(&self.extra[i].1);
            }
            i = i + 1;
        }
        proof {
            lemma_setting_value_absent(self.extra.deep_view(), key@);
        }
        None
    }
}

/// The string value of the first setting named `key` among `extra`.
pub open spec fn setting_value(extra: Seq<(Seq<char>, Option<Seq<char>>)>, key: Seq<char>) -> Option<Seq<char>>
    decreases extra.len(),
{
    if extra.len() == 0 {
        None
    } else if extra[0].0 == key {
        extra[0].1
    } else {
        setting_value(extra.drop_first(), key)
    }
}

proof fn lemma_setting_value_at(extra: Seq<(Seq<char>, Option<Seq<char>>)>, key: Seq<char>, i: int)
    requires
        0 <= i < extra.len(),
        extra[i].0 == key,
        forall|j: int| 0 <= j < i ==> extra[j].0 != key,
    ensures
        setting_value(extra, key) == extra[i].1,
    decreases i,
{
    if i > 0 {
        lemma_setting_value_at(extra.drop_first(), key, i - 1);
    }
}

proof fn lemma_setting_value_absent(extra: Seq<(Seq<char>, Option<Seq<char>>)>, key: Seq<char>)
    requires
        forall|j: int| 0 <= j < extra.len() ==> extra[j].0 != key,
    ensures
        setting_value(extra, key) is None,
    decreases extra.len(),
{
    if extra.len() > 0 {
        lemma_setting_value_absent(extra.drop_first(), key);
    }
}

} // verus!
