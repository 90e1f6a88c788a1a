use vstd::prelude::*;
use vstd::string::StringExecFns;
use crate::config::Category;
use crate::models::{Owner, RepoView, Repository, repos_view};
use crate::text::{
    contains, contains_spec, lemma_split_nonempty, push_char, replace_spec, replace_str, split,
    split_spec, str_eq, to_lowercase, unicode_lowercase,
};

verus! {

/// The directories of the day's output, `docs/rss/<year>/<month-day>`: the
/// first dash-separated piece of `date`, and the second and third pieces
/// joined by a dash (all of `date` when it has fewer than three pieces).
pub open spec fn output_dirs_spec(date: Seq<char>) -> (Seq<char>, Seq<char>) {
    let parts = split_spec(date, '-');
    (parts[0], if parts.len() >= 3 { parts[1].push('-') + parts[2] } else { date })
}

/// The year and month-day directories of the day's output.
pub fn output_dirs(date: &str) -> (r: (String, String))
    ensures
        (r.0@, r.1@) == output_dirs_spec(date@),
{
    let parts = split(date, '-');
    proof {
        lemma_split_nonempty(date@, '-');
    }
    let ghost pv = parts.deep_view();
    assert(pv[0] == parts[0]@);
    let year = parts[0].clone();
    let month_day = if parts.len() >= 3 {
        assert(pv[1] == parts[1]@ && pv[2] == parts[2]@);
        let mut md = parts[1].clone();
        push_char(&mut md, '-');
        md.append(parts[2].as_str());
        md
    } else {
        date.to_owned()
    };
    (year, month_day)
}

/// At most the first `n` elements of `s`.
pub open spec fn take_at_most<A>(s: Seq<A>, n: int) -> Seq<A> {
    if s.len() <= n {
        s
    } else {
        s.take(n)
    }
}

/// Whether a repository belongs to a category by keyword (its lowercased
/// name contains one) or by topic (it carries one of the category's topics).
pub open spec fn in_category(r: RepoView, keywords: Seq<Seq<char>>, topics: Seq<Seq<char>>) -> bool {
    (exists|k: int| 0 <= k < keywords.len() && contains_spec(unicode_lowercase(r.name), keywords[k]))
        || (exists|k: int| 0 <= k < topics.len() && r.topics.contains(topics[k]))
}

/// The repositories of a category, in ranking order: the first `max_items`
/// of all of them when the category names neither keywords nor topics,
/// otherwise the first `max_items` of those that belong to it.
pub open spec fn category_selection(
    repos: Seq<RepoView>,
    keywords: Seq<Seq<char>>,
    topics: Seq<Seq<char>>,
    max_items: usize,
) -> Seq<RepoView> {
    if keywords.len() == 0 && topics.len() == 0 {
        take_at_most(repos, max_items as int)
    } else {
        take_at_most(
            repos.filter(|r: RepoView| in_category(r, keywords, topics)),
            max_items as int,
        )
    }
}

fn has_topic(topics: &Vec<String>, t: &str) -> (r: bool)
    ensures
        r == topics.deep_view().contains(t@),
{
    let ghost tv = topics.deep_view();
    let mut i: usize = 0;
    while i < topics.len()
        invariant
            tv == topics.deep_view(),
            i <= topics.len(),
            forall|j: int| 0 <= j < i ==> tv[j] != t@,
        decreases topics.len() - i,
    {
        assert(tv[i as int] == topics[i as int]@);
        if str_eq(topics[i].as_str(), t) {
            assert(tv[i as int] == t@);
            return true;
        }
        i = i + 1;
    }
    false
}

fn belongs(repo: &Repository, category: &Category) -> (r: bool)
    ensures
        r == in_category(repo@, category.keywords.deep_view(), category.topics.deep_view()),
{
    let ghost kv = category.keywords.deep_view();
    let ghost cv = category.topics.deep_view();
    let lower = to_lowercase(repo.name.as_str());
    let mut i: usize = 0;
    while i < category.keywords.len()
        invariant
            i <= category.keywords.len(),
            kv == category.keywords.deep_view(),
            lower@ == unicode_lowercase(repo.name@),
            forall|j: int| 0 <= j < i ==> !contains_spec(lower@, kv[j]),
        decreases category.keywords.len() - i,
    {
        assert(kv[i as int] == category.keywords[i as int]@);
        if contains(lower.as_str(), category.keywords[i].as_str()) {
            return true;
        }
        i = i + 1;
    }
    let mut k: usize = 0;
    while k < category.topics.len()
        invariant
            k <= category.topics.len(),
            kv == category.keywords.deep_view(),
            cv == category.topics.deep_view(),
            forall|j: int| 0 <= j < i ==> !contains_spec(lower@, kv[j]),
            i == kv.len(),
            lower@ == unicode_lowercase(repo.name@),
            forall|j: int| 0 <= j < k ==> !repo@.topics.contains(cv[j]),
        decreases category.topics.len() - k,
    {
        assert(cv[k as int] == category.topics[k as int]@);
        if has_topic(&repo.topics, category.topics[k].as_str()) {
            return true;
        }
        k = k + 1;
    }
    false
}

/// The repositories (already ranked) of `category`.
pub fn select_category_repos(category: &Category, repos: &[Repository]) -> (r: Vec<Repository>)
    ensures
        repos_view(r@) == category_selection(
            repos_view(repos@),
            category.keywords.deep_view(),
            category.topics.deep_view(),
            category.max_items,
        ),
{
    let ghost rv = repos_view(repos@);
    let ghost kv = category.keywords.deep_view();
    let ghost cv = category.topics.deep_view();
    let all = category.keywords.len() == 0 && category.topics.len() == 0;
    let ghost pred = |r: RepoView| in_category(r, kv, cv);
    let mut out: Vec<Repository> = Vec::new();
    let mut i: usize = 0;
    while i < repos.len()
        invariant
            rv == repos_view(repos@),
            kv == category.keywords.deep_view(),
            cv == category.topics.deep_view(),
            all == (kv.len() == 0 && cv.len() == 0),
            pred == (|r: RepoView| in_category(r, kv, cv)),
            i <= repos.len(),
            all ==> repos_view(out@) == take_at_most(rv.take(i as int), category.max_items as int),
            !all ==> repos_view(out@) == take_at_most(rv.take(i as int).filter(pred), category.max_items as int),
        decreases repos.len() - i,
    {
        let ghost old_out = out@;
        proof {
            reveal(Seq::filter);
            assert(rv.take(i + 1).drop_last() =~= rv.take(i as int));
            assert(rv.take(i + 1).last() == repos@[i as int]@);
            assert(rv.take(i + 1) =~= rv.take(i as int).push(repos@[i as int]@));
        }
        let take = if all { true } else { belongs(&repos[i], category) };
        if take && out.len() < category.max_items {
            let c = repos[i].duplicate();
            out.push(c);
            assert(repos_view(out@) =~= repos_view(old_out).push(c@));
        }
        proof {
            let m = category.max_items as int;
            if all {
                let a = rv.take(i as int);
                let b = rv.take(i + 1);
                if a.len() < m {
                    assert(take_at_most(b, m) =~= repos_view(out@));
                } else {
                    assert(take_at_most(b, m) =~= take_at_most(a, m));
                }
            } else {
                let a = rv.take(i as int).filter(pred);
                let b = rv.take(i + 1).filter(pred);
                if take {
                    assert(b =~= a.push(repos@[i as int]@));
                    if a.len() < m {
                        assert(take_at_most(b, m) =~= repos_view(out@));
                    } else {
                        assert(take_at_most(b, m) =~= take_at_most(a, m));
                    }
                } else {
                    assert(b =~= a);
                }
            }
        }
        i = i + 1;
    }
    assert(rv.take(repos.len() as int) =~= rv);
    out
}

/// The day's report with its image links made relative to `docs/rss`:
/// every `](<date>_` becomes `](<year>/<month-day>/<date>_`.
pub open spec fn latest_report_spec(content: Seq<char>, date: Seq<char>, year: Seq<char>, month_day: Seq<char>) -> Seq<char> {
    replace_spec(
        content,
        "]("@ + date.push('_'),
        "]("@ + year.push('/') + month_day.push('/') + date.push('_'),
    )
}

/// The latest report built from the day's report.
pub fn latest_report(content: &str, date: &str, year: &str, month_day: &str) -> (r: String)
    ensures
        r@ == latest_report_spec(content@, date@, year@, month_day@),
{
    let mut target = String::from_str("](");
    target.append(date);
    push_char(&mut target, '_');
    let mut replacement = String::from_str("](");
    replacement.append(year);
    push_char(&mut replacement, '/');
    replacement.append(month_day);
    push_char(&mut replacement, '/');
    replacement.append(date);
    push_char(&mut replacement, '_');
    proof {
        reveal_strlit("](");
    }
    replace_str(content, target.as_str(), replacement.as_str())
}

/// The repository injected for a preview when mock mode is on or nothing
/// could be fetched; `now` (Unix seconds) is its creation, update and push time.
pub fn mock_repository(now: i64) -> (r: Repository)
    ensures
        r.id == 12345678,
        r.name@ == "mock-repo-preview"@,
        r.full_name@ == "test/mock-repo-preview"@,
        r.description.deep_view() == Some(
            "This is a mock repository generated because 'mock_mode' is enabled or API rate limit was reached."@,
        ),
        r.html_url@ == "https://github.com/test/mock-repo"@,
        r.stars == 12345,
        r.forks == 678,
        r.language.deep_view() == Some("Rust"@),
        r.topics.deep_view() == seq!["rust"@, "trending"@, "mock"@],
        r.created_at == now && r.updated_at == now && r.pushed_at == now,
        r.open_issues == 42,
        r.owner.login@ == "mock-user"@,
        r.owner.avatar_url@ == "https://github.githubassets.com/images/modules/logos_page/GitHub-Mark.png"@,
        r.readme is None,
        r.stars_today == Some(888u32),
{
    let mut topics: Vec<String> = Vec::new();
    topics.push(String::from_str("rust"));
    topics.push(String::from_str("trending"));
    topics.push(String::from_str("mock"));
    assert(topics.deep_view() =~= seq!["rust"@, "trending"@, "mock"@]);
    Repository {
        id: 12345678,
        name: String::from_str("mock-repo-preview"),
        full_name: String::from_str("test/mock-repo-preview"),
        description: Some(
            String::from_str(
                "This is a mock repository generated because 'mock_mode' is enabled or API rate limit was reached.",
            ),
        ),
        html_url: String::from_str("https://github.com/test/mock-repo"),
        stars: 12345,
        forks: 678,
        language: Some(String::from_str("Rust")),
        topics,
        created_at: now,
        updated_at: now,
        pushed_at: now,
        open_issues: 42,
        owner: Owner {
            login: String::from_str("mock-user"),
            avatar_url: String::from_str(
                "https://github.githubassets.com/images/modules/logos_page/GitHub-Mark.png",
            ),
        },
        readme: None,
        stars_today: Some(888),
    }
}

/// Whether the mock repository is injected: in mock mode, or when nothing
/// was fetched.
pub fn needs_mock_data(mock_mode: bool, fetched: usize) -> (r: bool)
    ensures
        r == (mock_mode || fetched == 0),
{
    mock_mode || fetched == 0
}


proof fn lemma_replace_absent(s: Seq<char>, pat: Seq<char>, rep: Seq<char>)
    requires
        pat.len() > 0,
        !contains_spec(s, pat),
    ensures
        replace_spec(s, pat, rep) == s,
    decreases s.len(),
{
    if s.len() >= pat.len() {
        assert(!crate::text::occurs_at(s, pat, 0));
        assert(s.subrange(0, pat.len() as int) != pat);
        let t = s.drop_first();
        assert(!contains_spec(t, pat)) by {
            if contains_spec(t, pat) {
                let i = choose|i: int| crate::text::occurs_at(t, pat, i);
                assert(s.subrange(i + 1, i + 1 + pat.len()) =~= t.subrange(i, i + pat.len()));
                assert(crate::text::occurs_at(s, pat, i + 1));
            }
        }
        lemma_replace_absent(t, pat, rep);
        assert(seq![s[0]] + t =~= s);
    }
}

/// A report without image links of the day is published unchanged.
pub proof fn law_report_without_links_unchanged(content: Seq<char>, date: Seq<char>, year: Seq<char>, month_day: Seq<char>)
    requires
        !contains_spec(content, "]("@ + date.push('_')),
    ensures
        latest_report_spec(content, date, year, month_day) == content,
{
    reveal_strlit("](");
    lemma_replace_absent(
        content,
        "]("@ + date.push('_'),
        "]("@ + year.push('/') + month_day.push('/') + date.push('_'),
    );
}

/// A category holds at most `max_items` repositories; when it names keywords
/// or topics, each of them belongs to it; and every one was fetched.
pub proof fn law_category_selection_bounded(
    repos: Seq<RepoView>,
    keywords: Seq<Seq<char>>,
    topics: Seq<Seq<char>>,
    max_items: usize,
)
    ensures
        ({
            let sel = category_selection(repos, keywords, topics, max_items);
            &&& sel.len() <= max_items
            &&& forall|k: int| 0 <= k < sel.len() ==> repos.contains(#[trigger] sel[k])
            &&& (keywords.len() > 0 || topics.len() > 0) ==> forall|k: int|
                0 <= k < sel.len() ==> in_category(#[trigger] sel[k], keywords, topics)
        }),
{
    broadcast use vstd::seq_lib::group_filter_ensures;

    let pred = |r: RepoView| in_category(r, keywords, topics);
    let sel = category_selection(repos, keywords, topics, max_items);
    if keywords.len() == 0 && topics.len() == 0 {
        assert forall|k: int| 0 <= k < sel.len() implies repos.contains(#[trigger] sel[k]) by {
            assert(repos[k] == sel[k]);
        }
    } else {
        let f = repos.filter(pred);
        assert forall|k: int| 0 <= k < sel.len() implies repos.contains(#[trigger] sel[k]) && in_category(
            sel[k],
            keywords,
            topics,
        ) by {
            assert(sel[k] == f[k]);
            repos.lemma_filter_contains_rev(pred, f[k]);
            assert(pred(f[k]));
        }
    }
}

/// One item of an RSS feed.
pub struct RssItem {
    pub title: String,
    pub link: String,
    pub description: String,
    /// Unix seconds.
    pub pub_date: i64,
    pub image_url: String,
    pub language: String,
}

/// The feed item of `repo` in a category of `language`, with its card's HTML
/// and image path when the card was made (`card`), else its description and
/// no image.
pub fn rss_item(repo: &Repository, card: Option<(&str, &str)>, language: &str) -> (r: RssItem)
    ensures
        r.title@ == repo.name@ + " - "@ + crate::summary::or_default(repo@.description, ""@),
        r.link@ == repo.html_url@,
        r.description@ == (match card {
            Some(c) => c.0@,
            None => crate::summary::or_default(repo@.description, ""@),
        }),
        r.image_url@ == (match card {
            Some(c) => c.1@,
            None => ""@,
        }),
        r.pub_date == repo.updated_at,
        r.language@ == language@,
{
    let desc: &str = match &repo.description {
        Some(d) => d.as_str(),
        None => "",
    };
    let mut title = repo.name.clone();
    title.append(" - ");
    title.append(desc);
    let (description, image_url) = match card {
        Some((html, image)) => (html.to_owned(), image.to_owned()),
        None => (desc.to_owned(), String::new()),
    };
    proof {
        reveal_strlit("");
    }
    RssItem {
        title,
        link: repo.html_url.clone(),
        description,
        pub_date: repo.updated_at,
        image_url,
        language: language.to_owned(),
    }
}

/// Whether some keyword occurs in the lowercased name `name`.
pub open spec fn name_has_keyword(name: Seq<char>, keywords: Seq<Seq<char>>) -> bool {
    exists|k: int| 0 <= k < keywords.len() && contains_spec(unicode_lowercase(name), #[trigger] keywords[k])
}

/// Whether the topic list `carried` holds one of `topics`.
pub open spec fn has_category_topic(carried: Seq<Seq<char>>, topics: Seq<Seq<char>>) -> bool {
    exists|k: int| 0 <= k < topics.len() && carried.contains(#[trigger] topics[k])
}

/// Category membership looks at the repository's name and topics only: two
/// repositories with the same name and topics (whatever their owners or full
/// names) are selected alike; a repository belongs exactly when its
/// lowercased name contains a keyword or it carries a category topic; and a
/// category that names keywords or topics selects no other repository.
pub proof fn law_category_by_name_and_topics(
    r1: RepoView,
    r2: RepoView,
    repos: Seq<RepoView>,
    keywords: Seq<Seq<char>>,
    topics: Seq<Seq<char>>,
    max_items: usize,
)
    ensures
        r1.name == r2.name && r1.topics == r2.topics ==> (in_category(r1, keywords, topics)
            <==> in_category(r2, keywords, topics)),
        in_category(r1, keywords, topics) <==> (name_has_keyword(r1.name, keywords)
            || has_category_topic(r1.topics, topics)),
        (keywords.len() > 0 || topics.len() > 0) ==> ({
            let sel = category_selection(repos, keywords, topics, max_items);
            forall|k: int|
                0 <= k < sel.len() ==> name_has_keyword(#[trigger] sel[k].name, keywords)
                    || has_category_topic(sel[k].topics, topics)
        }),
{
    law_category_selection_bounded(repos, keywords, topics, max_items);
    assert(in_category(r1, keywords, topics) <==> (name_has_keyword(r1.name, keywords)
        || has_category_topic(r1.topics, topics))) by {
        if in_category(r1, keywords, topics) {
            if exists|k: int| 0 <= k < keywords.len() && contains_spec(unicode_lowercase(r1.name), keywords[k]) {
                let k = choose|k: int| 0 <= k < keywords.len() && contains_spec(unicode_lowercase(r1.name), keywords[k]);
                assert(contains_spec(unicode_lowercase(r1.name), keywords[k]));
            } else {
                let k = choose|k: int| 0 <= k < topics.len() && r1.topics.contains(topics[k]);
                assert(r1.topics.contains(topics[k]));
            }
        }
        if name_has_keyword(r1.name, keywords) {
            let k = choose|k: int| 0 <= k < keywords.len() && contains_spec(unicode_lowercase(r1.name), #[trigger] keywords[k]);
            assert(contains_spec(unicode_lowercase(r1.name), keywords[k]));
        }
        if has_category_topic(r1.topics, topics) {
            let k = choose|k: int| 0 <= k < topics.len() && r1.topics.contains(#[trigger] topics[k]);
            assert(r1.topics.contains(topics[k]));
        }
    }
    if keywords.len() > 0 || topics.len() > 0 {
        let sel = category_selection(repos, keywords, topics, max_items);
        assert forall|k: int| 0 <= k < sel.len() implies name_has_keyword(#[trigger] sel[k].name, keywords)
            || has_category_topic(sel[k].topics, topics) by {
            let x = sel[k];
            assert(in_category(x, keywords, topics));
            if exists|j: int| 0 <= j < keywords.len() && contains_spec(unicode_lowercase(x.name), keywords[j]) {
                let j = choose|j: int| 0 <= j < keywords.len() && contains_spec(unicode_lowercase(x.name), keywords[j]);
                assert(contains_spec(unicode_lowercase(x.name), keywords[j]));
            } else {
                let j = choose|j: int| 0 <= j < topics.len() && x.topics.contains(topics[j]);
                assert(x.topics.contains(topics[j]));
            }
        }
    }
}
} // verus!
