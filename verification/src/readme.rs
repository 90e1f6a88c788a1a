use vstd::prelude::*;
use vstd::string::StringExecFns;
use crate::image::{card_image_file_name, card_image_name};
use crate::models::{RepoView, Repository, repos_view};
use crate::text::{decimal, decimal_string, join, join_spec, str_eq};

verus! {

/// The texts of one interface language.
pub struct LocaleText {
    pub title_prefix: String,
    pub description: String,
    pub highlights_title: String,
    pub table_stat: String,
    pub table_value: String,
    pub stat_items: String,
    pub stat_time: String,
    pub table_indicator: String,
    pub table_val: String,
    pub stars_today_label: String,
    pub desc_label: String,
    pub rss_title: String,
    pub rss_desc: String,
    pub rss_daily_xml_title: String,
    pub rss_daily_report_title: String,
    pub footer: String,
    pub cat_backend: String,
    pub cat_frontend: String,
    pub cat_mobile: String,
    pub cat_ai_ml: String,
    pub cat_daily_top: String,
    pub landing_title: String,
    pub landing_subtitle: String,
    pub landing_today_title: String,
    pub landing_today_desc: String,
    pub landing_today_link: String,
    pub landing_rss_title: String,
    pub landing_rss_desc: String,
    pub landing_rss_xml_label: String,
    pub landing_features_title: String,
    pub landing_feature_algo: String,
    pub landing_feature_daily: String,
    pub landing_feature_card: String,
    pub landing_feature_rss: String,
    pub landing_history_title: String,
    pub landing_history_desc: String,
}

/// Writes README files.
pub struct ReadmeGenerator;

impl ReadmeGenerator {
    /// A README generator.
    pub fn new() -> (r: ReadmeGenerator) {
        ReadmeGenerator
    }
}

/// The emoji heading a category.
pub open spec fn category_emoji(name: Seq<char>) -> Seq<char> {
    if name == "backend"@ {
        "🔧"@
    } else if name == "frontend"@ {
        "🎨"@
    } else if name == "mobile"@ {
        "📱"@
    } else if name == "ai-ml"@ {
        "🤖"@
    } else if name == "daily-top"@ {
        "🌟"@
    } else {
        "📦"@
    }
}

/// The displayed name of a category: the localised name of a known category,
/// else the name itself.
pub open spec fn category_display_name(name: Seq<char>, t: &LocaleText) -> Seq<char> {
    if name == "backend"@ {
        t.cat_backend@
    } else if name == "frontend"@ {
        t.cat_frontend@
    } else if name == "mobile"@ {
        t.cat_mobile@
    } else if name == "ai-ml"@ {
        t.cat_ai_ml@
    } else if name == "daily-top"@ {
        t.cat_daily_top@
    } else {
        name
    }
}

/// The first five topics, each in backquotes, separated by spaces.
pub open spec fn tags_text(topics: Seq<Seq<char>>) -> Seq<char> {
    let n = if topics.len() < 5 { topics.len() as int } else { 5 };
    join_spec(topics.subrange(0, n).map_values(|t: Seq<char>| "`"@ + t + "`"@), " "@)
}

/// `s` when `cond`, else nothing.
pub open spec fn piece_if(cond: bool, s: Seq<char>) -> Seq<char> {
    if cond {
        s
    } else {
        Seq::empty()
    }
}

/// The README section of the repository `r`, numbered `number`, in category
/// `category` of the day `date`.
pub open spec fn repo_section(number: nat, r: RepoView, date: Seq<char>, category: Seq<char>, t: &LocaleText) -> Seq<char> {
    "### "@ + decimal(number) + ". ["@ + r.name + "]("@ + r.html_url + ")\n\n"@
        + "| "@ + t.table_indicator@ + " | "@ + t.table_val@ + " |\n"@
        + "|------|----|\n"@
        + "| ⭐ Stars | **"@ + decimal(r.stars as nat) + "** |\n"@
        + "| 🍴 Forks | **"@ + decimal(r.forks as nat) + "** |\n"@
        + "| 💻 Language | "@ + (match r.language { Some(l) => l, None => "N/A"@ }) + " |\n"@
        + piece_if(r.topics.len() > 0, "| 🏷️ Tags | "@ + tags_text(r.topics) + " |\n"@)
        + (match r.stars_today {
            Some(n) => "| "@ + t.stars_today_label@ + " | **"@ + decimal(n as nat) + "** |\n"@,
            None => Seq::empty(),
        })
        + "\n"@
        + (match r.description {
            Some(d) => "**"@ + t.desc_label@ + ":** "@ + d + "\n\n"@,
            None => Seq::empty(),
        })
        + "!["@ + r.name + "]("@ + card_image_file_name(date, category, r.name) + ")\n\n"@
}

/// The sections of the first `n` repositories of a category.
pub open spec fn repo_sections(repos: Seq<RepoView>, n: int, date: Seq<char>, category: Seq<char>, t: &LocaleText) -> Seq<char>
    decreases n,
{
    if n <= 0 {
        Seq::empty()
    } else {
        repo_sections(repos, n - 1, date, category, t) + repo_section(
            n as nat,
            repos[n - 1],
            date,
            category,
            t,
        )
    }
}

/// The README part of one category: nothing for an empty category.
pub open spec fn category_part(name: Seq<char>, repos: Seq<RepoView>, date: Seq<char>, t: &LocaleText) -> Seq<char> {
    if repos.len() == 0 {
        Seq::empty()
    } else {
        "---\n\n"@ + "## "@ + category_emoji(name) + " "@ + category_display_name(name, t) + "\n\n"@
            + repo_sections(repos, repos.len() as int, date, name, t)
    }
}

/// The category parts of the first `n` categories.
pub open spec fn category_parts(cats: Seq<(String, Vec<Repository>)>, n: int, date: Seq<char>, t: &LocaleText) -> Seq<char>
    decreases n,
{
    if n <= 0 {
        Seq::empty()
    } else {
        category_parts(cats, n - 1, date, t) + category_part(
            cats[n - 1].0@,
            repos_view(cats[n - 1].1@),
            date,
            t,
        )
    }
}

/// The feed links of the first `n` categories.
pub open spec fn feed_links(cats: Seq<(String, Vec<Repository>)>, n: int, t: &LocaleText) -> Seq<char>
    decreases n,
{
    if n <= 0 {
        Seq::empty()
    } else {
        feed_links(cats, n - 1, t) + "- 🔔 ["@ + category_display_name(cats[n - 1].0@, t)
            + "](../../"@ + cats[n - 1].0@ + ".xml)\n"@
    }
}

/// The number of repositories in the first `n` categories.
pub open spec fn total_repos(cats: Seq<(String, Vec<Repository>)>, n: int) -> nat
    decreases n,
{
    if n <= 0 {
        0
    } else {
        total_repos(cats, n - 1) + cats[n - 1].1@.len()
    }
}

/// Whether `locale` is Chinese.
pub open spec fn is_cn(locale: Seq<char>) -> bool {
    locale == "zh"@
}

/// The name of the day's report file for `locale`.
pub open spec fn report_file(locale: Seq<char>) -> Seq<char> {
    if is_cn(locale) {
        "GITHUB_TODAY_CN.md"@
    } else {
        "GITHUB_TODAY.md"@
    }
}

/// The name of the README of the day `date` in `locale`:
/// `README_{date}.md`, with `_CN` before the extension in Chinese.
pub open spec fn readme_file(date: Seq<char>, locale: Seq<char>) -> Seq<char> {
    if is_cn(locale) {
        "README_"@ + date + "_CN.md"@
    } else {
        "README_"@ + date + ".md"@
    }
}

/// The day's README: title, statistics, the parts of the categories, the
/// feed links, and the footer.  `stat_time` and `footer_time` are the
/// generation time as `%Y-%m-%d %H:%M UTC` and `%Y-%m-%d %H:%M:%S UTC`.
pub open spec fn daily_readme(
    date: Seq<char>,
    cats: Seq<(String, Vec<Repository>)>,
    locale: Seq<char>,
    t: &LocaleText,
    stat_time: Seq<char>,
    footer_time: Seq<char>,
) -> Seq<char> {
    "# "@ + t.title_prefix@ + " - "@ + date + "\n\n"@
        + t.description@ + "\n\n"@
        + "## "@ + t.highlights_title@ + "\n\n"@
        + "| "@ + t.table_stat@ + " | "@ + t.table_value@ + " |\n"@
        + "|--------|------|\n"@
        + "| "@ + t.stat_items@ + " | **"@ + decimal(total_repos(cats, cats.len() as int)) + "** |\n"@
        + "| "@ + t.stat_time@ + " | "@ + stat_time + " |\n\n"@
        + category_parts(cats, cats.len() as int, date, t)
        + "---\n\n"@
        + "## "@ + t.rss_title@ + "\n\n"@
        + t.rss_desc@ + "\n\n"@
        + "- 🔔 ["@ + t.rss_daily_xml_title@ + "] (../../daily-top.xml)\n"@
        + "- 🔔 ["@ + t.rss_daily_report_title@ + "] (../../"@ + report_file(locale) + ")\n"@
        + feed_links(cats, cats.len() as int, t)
        + "\n---\n\n"@
        + t.footer@ + " "@ + footer_time + "\n"@
}

/// The landing page (the repository's root README) for `locale`.
pub open spec fn landing_readme(locale: Seq<char>, t: &LocaleText) -> Seq<char> {
    "# "@ + t.landing_title@ + "\n\n"@
        + "> "@ + t.landing_subtitle@ + "\n\n"@
        + "## "@ + t.landing_today_title@ + "\n\n"@
        + t.landing_today_desc@ + "\n\n"@
        + "**["@ + t.landing_today_link@ + "]("@ + "docs/rss/"@ + report_file(locale) + ")**\n\n"@
        + "## "@ + t.landing_rss_title@ + "\n\n"@
        + t.landing_rss_desc@ + "\n\n"@
        + "- **"@ + t.landing_rss_xml_label@ + "**: [docs/rss/daily-top.xml](docs/rss/daily-top.xml)\n\n"@
        + "## "@ + t.landing_features_title@ + "\n\n"@
        + "- "@ + t.landing_feature_algo@ + "\n"@
        + "- "@ + t.landing_feature_daily@ + "\n"@
        + "- "@ + t.landing_feature_card@ + "\n"@
        + "- "@ + t.landing_feature_rss@ + "\n\n"@
        + "## "@ + t.landing_history_title@ + "\n\n"@
        + t.landing_history_desc@ + "\n"@
}

fn tags_line(topics: &Vec<String>) -> (r: String)
    ensures
        r@ == tags_text(topics.deep_view()),
{
    let n: usize = if topics.len() < 5 { topics.len() } else { 5 };
    let ghost tv = topics.deep_view();
    let ghost f = |t: Seq<char>| "`"@ + t + "`"@;
    let mut quoted: Vec<String> = Vec::new();
    let mut i: usize = 0;
    while i < n
        invariant
            tv == topics.deep_view(),
            n <= topics.len(),
            i <= n,
            f == (|t: Seq<char>| "`"@ + t + "`"@),
            quoted.deep_view() =~= tv.subrange(0, i as int).map_values(f),
        decreases n - i,
    {
        let mut q = String::from_str("`");
        q.append(topics[i].as_str());
        q.append("`");
        let ghost old_q = quoted.deep_view();
        quoted.push(q);
        assert(quoted.deep_view() =~= old_q.push(f(tv[i as int])));
        assert(tv.subrange(0, i + 1).map_values(f) =~= tv.subrange(0, i as int).map_values(f).push(f(tv[i as int])));
        i = i + 1;
    }
    join(&quoted, " ")
}

impl ReadmeGenerator {
    /// The emoji heading the category `name`.
    pub fn get_category_emoji(&self, name: &str) -> (r: &'static str)
        ensures
            r@ == category_emoji(name@),
    {
        if str_eq(name, "backend") {
            "🔧"
        } else if str_eq(name, "frontend") {
            "🎨"
        } else if str_eq(name, "mobile") {
            "📱"
        } else if str_eq(name, "ai-ml") {
            "🤖"
        } else if str_eq(name, "daily-top") {
            "🌟"
        } else {
            "📦"
        }
    }

    /// The displayed name of the category `name` in the texts `text`.
    pub fn format_category_name(&self, name: &str, text: &LocaleText) -> (r: String)
        ensures
            r@ == category_display_name(name@, text),
    {
        if str_eq(name, "backend") {
            text.cat_backend.clone()
        } else if str_eq(name, "frontend") {
            text.cat_frontend.clone()
        } else if str_eq(name, "mobile") {
            text.cat_mobile.clone()
        } else if str_eq(name, "ai-ml") {
            text.cat_ai_ml.clone()
        } else if str_eq(name, "daily-top") {
            text.cat_daily_top.clone()
        } else {
            name.to_owned()
        }
    }
}


fn repo_section_text(number: u64, repo: &Repository, date: &str, category: &str, t: &LocaleText) -> (r: String)
    ensures
        r@ == repo_section(number as nat, repo@, date@, category@, t),
{
    let mut s = String::from_str("### ");
    s.append(decimal_string(number).as_str());
    s.append(". [");
    s.append(repo.name.as_str());
    s.append("](");
    s.append(repo.html_url.as_str());
    s.append(")\n\n");
    s.append("| ");
    s.append(t.table_indicator.as_str());
    s.append(" | ");
    s.append(t.table_val.as_str());
    s.append(" |\n");
    s.append("|------|----|\n");
    s.append("| ⭐ Stars | **");
    s.append(decimal_string(repo.stars as u64).as_str());
    s.append("** |\n");
    s.append("| 🍴 Forks | **");
    s.append(decimal_string(repo.forks as u64).as_str());
    s.append("** |\n");
    s.append("| 💻 Language | ");
    match &repo.language {
        Some(l) => s.append(l.as_str()),
        None => s.append("N/A"),
    }
    s.append(" |\n");
    let ghost s1 = s@;
    if repo.topics.len() > 0 {
        let mut line = String::from_str("| 🏷️ Tags | ");
        line.append(tags_line(&repo.topics).as_str());
        line.append(" |\n");
        s.append(line.as_str());
    } else {
        assert(s@ =~= s1 + piece_if(false, Seq::empty()));
    }
    let ghost s2 = s@;
    match repo.stars_today {
        Some(n) => {
            let mut line = String::from_str("| ");
            line.append(t.stars_today_label.as_str());
            line.append(" | **");
            line.append(decimal_string(n as u64).as_str());
            line.append("** |\n");
            s.append(line.as_str());
        },
        None => {
            assert(s@ =~= s2 + Seq::<char>::empty());
        },
    }
    s.append("\n");
    let ghost s3 = s@;
    match &repo.description {
        Some(d) => {
            let mut line = String::from_str("**");
            line.append(t.desc_label.as_str());
            line.append(":** ");
            line.append(d.as_str());
            line.append("\n\n");
            s.append(line.as_str());
        },
        None => {
            assert(s@ =~= s3 + Seq::<char>::empty());
        },
    }
    s.append("![");
    s.append(repo.name.as_str());
    s.append("](");
    s.append(card_image_name(date, category, repo.name.as_str()).as_str());
    s.append(")\n\n");
    s
}

fn category_part_text(name: &str, repos: &Vec<Repository>, date: &str, t: &LocaleText, g: &ReadmeGenerator) -> (r: String)
    requires
        repos.len() < u64::MAX,
    ensures
        r@ == category_part(name@, repos_view(repos@), date@, t),
{
    if repos.len() == 0 {
        return String::new();
    }
    let mut s = String::from_str("---\n\n");
    s.append("## ");
    s.append(g.get_category_emoji(name));
    s.append(" ");
    s.append(g.format_category_name(name, t).as_str());
    s.append("\n\n");
    let ghost head = s@;
    let ghost rv = repos_view(repos@);
    let mut i: usize = 0;
    while i < repos.len()
        invariant
            rv == repos_view(repos@),
            repos.len() < u64::MAX,
            i <= repos.len(),
            s@ == head + repo_sections(rv, i as int, date@, name@, t),
        decreases repos.len() - i,
    {
        let sec = repo_section_text((i + 1) as u64, &repos[i], date, name, t);
        s.append(sec.as_str());
        assert(rv[i as int] == repos@[i as int]@);
        i = i + 1;
    }
    s
}

impl ReadmeGenerator {
    /// The day's README for `date` over `categories` (each a category name
    /// with its repositories) in `locale`, with the texts `text`; `stat_time`
    /// and `footer_time` are the generation time as the statistics table and
    /// the footer show it.  Empty categories get no section but keep their
    /// feed link.
    pub fn generate_daily_readme(
        &self,
        date: &str,
        categories: &Vec<(String, Vec<Repository>)>,
        locale: &str,
        text: &LocaleText,
        stat_time: &str,
        footer_time: &str,
    ) -> (r: String)
        requires
            total_repos(categories@, categories.len() as int) < u64::MAX,
        ensures
            r@ == daily_readme(date@, categories@, locale@, text, stat_time@, footer_time@),
    {
        let cats = categories;
        let ghost cv = cats@;
        // total number of repositories
        let mut total: u64 = 0;
        let mut i: usize = 0;
        while i < cats.len()
            invariant
                cv == cats@,
                i <= cats.len(),
                total == total_repos(cv, i as int),
                total_repos(cv, cv.len() as int) < u64::MAX,
            decreases cats.len() - i,
        {
            proof {
                lemma_total_repos_monotone(cv, i + 1, cv.len() as int);
            }
            total = total + cats[i].1.len() as u64;
            i = i + 1;
        }
        let mut s = String::from_str("# ");
        s.append(text.title_prefix.as_str());
        s.append(" - ");
        s.append(date);
        s.append("\n\n");
        s.append(text.description.as_str());
        s.append("\n\n");
        s.append("## ");
        s.append(text.highlights_title.as_str());
        s.append("\n\n");
        s.append("| ");
        s.append(text.table_stat.as_str());
        s.append(" | ");
        s.append(text.table_value.as_str());
        s.append(" |\n");
        s.append("|--------|------|\n");
        s.append("| ");
        s.append(text.stat_items.as_str());
        s.append(" | **");
        s.append(decimal_string(total).as_str());
        s.append("** |\n");
        s.append("| ");
        s.append(text.stat_time.as_str());
        s.append(" | ");
        s.append(stat_time);
        s.append(" |\n\n");
        let ghost head = s@;
        let mut k: usize = 0;
        while k < cats.len()
            invariant
                cv == cats@,
                k <= cats.len(),
                total_repos(cv, cv.len() as int) < u64::MAX,
                s@ == head + category_parts(cv, k as int, date@, text),
            decreases cats.len() - k,
        {
            proof {
                lemma_total_repos_monotone(cv, k + 1, cv.len() as int);
            }
            let part = category_part_text(cats[k].0.as_str(), &cats[k].1, date, text, self);
            s.append(part.as_str());
            k = k + 1;
        }
        s.append("---\n\n");
        s.append("## ");
        s.append(text.rss_title.as_str());
        s.append("\n\n");
        s.append(text.rss_desc.as_str());
        s.append("\n\n");
        s.append("- 🔔 [");
        s.append(text.rss_daily_xml_title.as_str());
        s.append("] (../../daily-top.xml)\n");
        s.append("- 🔔 [");
        s.append(text.rss_daily_report_title.as_str());
        s.append("] (../../");
        s.append(if str_eq(locale, "zh") { "GITHUB_TODAY_CN.md" } else { "GITHUB_TODAY.md" });
        s.append(")\n");
        let ghost mid = s@;
        let mut j: usize = 0;
        while j < cats.len()
            invariant
                cv == cats@,
                j <= cats.len(),
                s@ == mid + feed_links(cv, j as int, text),
            decreases cats.len() - j,
        {
            s.append("- 🔔 [");
            s.append(self.format_category_name(cats[j].0.as_str(), text).as_str());
            s.append("](../../");
            s.append(cats[j].0.as_str());
            s.append(".xml)\n");
            j = j + 1;
        }
        s.append("\n---\n\n");
        s.append(text.footer.as_str());
        s.append(" ");
        s.append(footer_time);
        s.append("\n");
        s
    }

    /// The landing page for `locale` with the texts `text`.
    pub fn generate_landing_readme(&self, locale: &str, text: &LocaleText) -> (r: String)
        ensures
            r@ == landing_readme(locale@, text),
    {
        let mut s = String::from_str("# ");
        s.append(text.landing_title.as_str());
        s.append("\n\n");
        s.append("> ");
        s.append(text.landing_subtitle.as_str());
        s.append("\n\n");
        s.append("## ");
        s.append(text.landing_today_title.as_str());
        s.append("\n\n");
        s.append(text.landing_today_desc.as_str());
        s.append("\n\n");
        s.append("**[");
        s.append(text.landing_today_link.as_str());
        s.append("](");
        s.append("docs/rss/");
        s.append(if str_eq(locale, "zh") { "GITHUB_TODAY_CN.md" } else { "GITHUB_TODAY.md" });
        s.append(")**\n\n");
        s.append("## ");
        s.append(text.landing_rss_title.as_str());
        s.append("\n\n");
        s.append(text.landing_rss_desc.as_str());
        s.append("\n\n");
        s.append("- **");
        s.append(text.landing_rss_xml_label.as_str());
        s.append("**: [docs/rss/daily-top.xml](docs/rss/daily-top.xml)\n\n");
        s.append("## ");
        s.append(text.landing_features_title.as_str());
        s.append("\n\n");
        s.append("- ");
        s.append(text.landing_feature_algo.as_str());
        s.append("\n");
        s.append("- ");
        s.append(text.landing_feature_daily.as_str());
        s.append("\n");
        s.append("- ");
        s.append(text.landing_feature_card.as_str());
        s.append("\n");
        s.append("- ");
        s.append(text.landing_feature_rss.as_str());
        s.append("\n\n");
        s.append("## ");
        s.append(text.landing_history_title.as_str());
        s.append("\n\n");
        s.append(text.landing_history_desc.as_str());
        s.append("\n");
        s
    }

    /// The files the README of the day `date` is written to in `locale`:
    /// the README named by the date, and the day's report.
    pub fn daily_file_names(&self, date: &str, locale: &str) -> (r: (String, &'static str))
        ensures
            r.0@ == readme_file(date@, locale@),
            r.1@ == report_file(locale@),
    {
        let mut name = String::from_str("README_");
        name.append(date);
        if str_eq(locale, "zh") {
            name.append("_CN.md");
            (name, "GITHUB_TODAY_CN.md")
        } else {
            name.append(".md");
            (name, "GITHUB_TODAY.md")
        }
    }
}

proof fn lemma_total_repos_monotone(cats: Seq<(String, Vec<Repository>)>, i: int, j: int)
    requires
        0 <= i <= j,
    ensures
        total_repos(cats, i) <= total_repos(cats, j),
    decreases j - i,
{
    if i < j {
        lemma_total_repos_monotone(cats, i, j - 1);
    }
}

/// The README shows each repository's card through the very file the image
/// generator writes for it.
pub proof fn law_readme_shows_card_image(number: nat, r: RepoView, date: Seq<char>, category: Seq<char>, t: &LocaleText)
    ensures
        crate::text::contains_spec(
            repo_section(number, r, date, category, t),
            "]("@ + card_image_file_name(date, category, r.name),
        ),
{
    let sec = repo_section(number, r, date, category, t);
    let img = card_image_file_name(date, category, r.name);
    let prefix = "### "@ + decimal(number) + ". ["@ + r.name + "]("@ + r.html_url + ")\n\n"@
        + "| "@ + t.table_indicator@ + " | "@ + t.table_val@ + " |\n"@
        + "|------|----|\n"@
        + "| ⭐ Stars | **"@ + decimal(r.stars as nat) + "** |\n"@
        + "| 🍴 Forks | **"@ + decimal(r.forks as nat) + "** |\n"@
        + "| 💻 Language | "@ + (match r.language { Some(l) => l, None => "N/A"@ }) + " |\n"@
        + piece_if(r.topics.len() > 0, "| 🏷️ Tags | "@ + tags_text(r.topics) + " |\n"@)
        + (match r.stars_today {
            Some(n) => "| "@ + t.stars_today_label@ + " | **"@ + decimal(n as nat) + "** |\n"@,
            None => Seq::empty(),
        })
        + "\n"@
        + (match r.description {
            Some(d) => "**"@ + t.desc_label@ + ":** "@ + d + "\n\n"@,
            None => Seq::empty(),
        })
        + "!["@ + r.name;
    let target = "]("@ + img;
    assert(sec =~= prefix + target + ")\n\n"@);
    let i = prefix.len() as int;
    assert(sec.subrange(i, i + target.len()) =~= target);
    assert(crate::text::occurs_at(sec, target, i));
}


/// An occurrence stays where it is when text is appended.
proof fn lemma_occurs_after_append(p: Seq<char>, t: Seq<char>, i: int, s: Seq<char>)
    requires
        crate::text::occurs_at(p, t, i),
    ensures
        crate::text::occurs_at(p + s, t, i),
{
    assert((p + s).subrange(i, i + t.len()) =~= p.subrange(i, i + t.len()));
}

/// A repository's README section shows its language in the table's language
/// row, and "N/A" there when it has none.
pub proof fn law_readme_section_shows_language(number: nat, r: RepoView, date: Seq<char>, category: Seq<char>, t: &LocaleText)
    ensures
        r.language matches Some(l) ==> crate::text::contains_spec(
            repo_section(number, r, date, category, t),
            "| 💻 Language | "@ + l + " |\n"@,
        ),
        r.language is None ==> crate::text::contains_spec(
            repo_section(number, r, date, category, t),
            "| 💻 Language | "@ + "N/A"@ + " |\n"@,
        ),
{
    let lang = match r.language { Some(l) => l, None => "N/A"@ };
    let p0 = "### "@ + decimal(number) + ". ["@ + r.name + "]("@ + r.html_url + ")\n\n"@
        + "| "@ + t.table_indicator@ + " | "@ + t.table_val@ + " |\n"@
        + "|------|----|\n"@
        + "| ⭐ Stars | **"@ + decimal(r.stars as nat) + "** |\n"@
        + "| 🍴 Forks | **"@ + decimal(r.forks as nat) + "** |\n"@;
    let row = "| 💻 Language | "@ + lang + " |\n"@;
    let p1 = p0 + "| 💻 Language | "@ + lang + " |\n"@;
    let i = p0.len() as int;
    assert(p1.subrange(i, i + row.len()) =~= row);
    let x1 = piece_if(r.topics.len() > 0, "| 🏷️ Tags | "@ + tags_text(r.topics) + " |\n"@);
    let x2 = match r.stars_today {
        Some(n) => "| "@ + t.stars_today_label@ + " | **"@ + decimal(n as nat) + "** |\n"@,
        None => Seq::empty(),
    };
    let x4 = match r.description {
        Some(d) => "**"@ + t.desc_label@ + ":** "@ + d + "\n\n"@,
        None => Seq::empty(),
    };
    let q1 = p1 + x1;
    let q2 = q1 + x2;
    let q3 = q2 + "\n"@;
    let q4 = q3 + x4;
    let q5 = q4 + "!["@;
    let q6 = q5 + r.name;
    let q7 = q6 + "]("@;
    let q8 = q7 + card_image_file_name(date, category, r.name);
    let q9 = q8 + ")\n\n"@;
    lemma_occurs_after_append(p1, row, i, x1);
    lemma_occurs_after_append(q1, row, i, x2);
    lemma_occurs_after_append(q2, row, i, "\n"@);
    lemma_occurs_after_append(q3, row, i, x4);
    lemma_occurs_after_append(q4, row, i, "!["@);
    lemma_occurs_after_append(q5, row, i, r.name);
    lemma_occurs_after_append(q6, row, i, "]("@);
    lemma_occurs_after_append(q7, row, i, card_image_file_name(date, category, r.name));
    lemma_occurs_after_append(q8, row, i, ")\n\n"@);
    assert(q9 == repo_section(number, r, date, category, t));
}

/// The landing page links to the day's report of its own locale, the very
/// file the daily README of that locale links to: `GITHUB_TODAY_CN.md` for
/// "zh", `GITHUB_TODAY.md` for every other locale.
pub proof fn law_landing_links_report_of_locale(locale: Seq<char>, t: &LocaleText)
    ensures
        report_file(locale) == (if locale == "zh"@ { "GITHUB_TODAY_CN.md"@ } else { "GITHUB_TODAY.md"@ }),
        crate::text::contains_spec(
            landing_readme(locale, t),
            "**["@ + t.landing_today_link@ + "]("@ + "docs/rss/"@ + report_file(locale) + ")**\n\n"@,
        ),
{
    let p0 = "# "@ + t.landing_title@ + "\n\n"@
        + "> "@ + t.landing_subtitle@ + "\n\n"@
        + "## "@ + t.landing_today_title@ + "\n\n"@
        + t.landing_today_desc@ + "\n\n"@;
    let link = "**["@ + t.landing_today_link@ + "]("@ + "docs/rss/"@ + report_file(locale) + ")**\n\n"@;
    let p1 = p0 + "**["@ + t.landing_today_link@ + "]("@ + "docs/rss/"@ + report_file(locale) + ")**\n\n"@;
    let i = p0.len() as int;
    assert(p1.subrange(i, i + link.len()) =~= link);
    let q1 = p1 + "## "@;
    let q2 = q1 + t.landing_rss_title@;
    let q3 = q2 + "\n\n"@;
    let q4 = q3 + t.landing_rss_desc@;
    let q5 = q4 + "\n\n"@;
    let q6 = q5 + "- **"@;
    let q7 = q6 + t.landing_rss_xml_label@;
    let q8 = q7 + "**: [docs/rss/daily-top.xml](docs/rss/daily-top.xml)\n\n"@;
    let q9 = q8 + "## "@;
    let q10 = q9 + t.landing_features_title@;
    let q11 = q10 + "\n\n"@;
    let q12 = q11 + "- "@;
    let q13 = q12 + t.landing_feature_algo@;
    let q14 = q13 + "\n"@;
    let q15 = q14 + "- "@;
    let q16 = q15 + t.landing_feature_daily@;
    let q17 = q16 + "\n"@;
    let q18 = q17 + "- "@;
    let q19 = q18 + t.landing_feature_card@;
    let q20 = q19 + "\n"@;
    let q21 = q20 + "- "@;
    let q22 = q21 + t.landing_feature_rss@;
    let q23 = q22 + "\n\n"@;
    let q24 = q23 + "## "@;
    let q25 = q24 + t.landing_history_title@;
    let q26 = q25 + "\n\n"@;
    let q27 = q26 + t.landing_history_desc@;
    let q28 = q27 + "\n"@;
    lemma_occurs_after_append(p1, link, i, "## "@);
    lemma_occurs_after_append(q1, link, i, t.landing_rss_title@);
    lemma_occurs_after_append(q2, link, i, "\n\n"@);
    lemma_occurs_after_append(q3, link, i, t.landing_rss_desc@);
    lemma_occurs_after_append(q4, link, i, "\n\n"@);
    lemma_occurs_after_append(q5, link, i, "- **"@);
    lemma_occurs_after_append(q6, link, i, t.landing_rss_xml_label@);
    lemma_occurs_after_append(q7, link, i, "**: [docs/rss/daily-top.xml](docs/rss/daily-top.xml)\n\n"@);
    lemma_occurs_after_append(q8, link, i, "## "@);
    lemma_occurs_after_append(q9, link, i, t.landing_features_title@);
    lemma_occurs_after_append(q10, link, i, "\n\n"@);
    lemma_occurs_after_append(q11, link, i, "- "@);
    lemma_occurs_after_append(q12, link, i, t.landing_feature_algo@);
    lemma_occurs_after_append(q13, link, i, "\n"@);
    lemma_occurs_after_append(q14, link, i, "- "@);
    lemma_occurs_after_append(q15, link, i, t.landing_feature_daily@);
    lemma_occurs_after_append(q16, link, i, "\n"@);
    lemma_occurs_after_append(q17, link, i, "- "@);
    lemma_occurs_after_append(q18, link, i, t.landing_feature_card@);
    lemma_occurs_after_append(q19, link, i, "\n"@);
    lemma_occurs_after_append(q20, link, i, "- "@);
    lemma_occurs_after_append(q21, link, i, t.landing_feature_rss@);
    lemma_occurs_after_append(q22, link, i, "\n\n"@);
    lemma_occurs_after_append(q23, link, i, "## "@);
    lemma_occurs_after_append(q24, link, i, t.landing_history_title@);
    lemma_occurs_after_append(q25, link, i, "\n\n"@);
    lemma_occurs_after_append(q26, link, i, t.landing_history_desc@);
    lemma_occurs_after_append(q27, link, i, "\n"@);
    assert(q28 == landing_readme(locale, t));
}
} // verus!
