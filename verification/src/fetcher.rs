use vstd::prelude::*;
use crate::models::{RepoView, Repository, clone_repos, repos_view};
use crate::ranking::{RankKey, is_stable_ranking, rank_by_keys, rank_keys};
use crate::storage::DataStorage;

verus! {

#[verifier::external_type_specification]
#[verifier::external_body]
pub struct ExRegexError(regex::Error);

/// Whether the regular expression `pattern` finds a match in `haystack`
/// (`regex::Regex::is_match`).
pub uninterp spec fn regex_is_match(pattern: Seq<char>, haystack: Seq<char>) -> bool;

/// `haystack` with every match of the regular expression `pattern` replaced
/// by `replacement` (`regex::Regex::replace_all`).
pub uninterp spec fn regex_replace_all(
    pattern: Seq<char>,
    haystack: Seq<char>,
    replacement: Seq<char>,
) -> Seq<char>;

#[verifier::external_type_specification]
#[verifier::external_body]
pub struct ExRegex(regex::Regex);

/// A compiled regular expression together with the pattern it was compiled
/// from (only `compile_pattern` makes one).
pub struct CompiledPattern {
    re: regex::Regex,
    pattern: String,
}

impl CompiledPattern {
    /// The pattern this expression was compiled from.
    pub closed spec fn pattern_view(&self) -> Seq<char> {
        self.pattern@
    }
}

/// `regex::Regex::new(pattern)`.  Claimed: on success, the compiled
/// expression is recorded with `pattern`; and the secret pattern compiles.
/// `Regex::new` fails only on an invalid pattern or one whose compiled form
/// exceeds the default size limit; the secret pattern is valid syntax made of
/// ASCII classes with bounded repetitions, far below that limit.  Nothing is
/// claimed about which other patterns compile.
#[verifier::external_body]
fn compile_pattern(pattern: &str) -> (r: Result<CompiledPattern, regex::Error>)
    ensures
        r matches Ok(c) ==> c.pattern_view() == pattern@,
        pattern@ == secret_pattern() ==> r is Ok,
{
    match regex::Regex::new(pattern) {
        Ok(re) => Ok(CompiledPattern { re, pattern: pattern.to_string() }),
        Err(e) => Err(e),
    }
}

/// `regex::Regex::is_match(haystack)`.  Claimed: the answer is
/// `regex_is_match` of the expression's pattern and `haystack`.
#[verifier::external_body]
fn pattern_is_match(c: &CompiledPattern, haystack: &str) -> (r: bool)
    ensures
        r == regex_is_match(c.pattern_view(), haystack@),
{
    c.re.is_match(haystack)
}

/// `regex::Regex::replace_all(haystack, replacement)`, as an owned string.
/// Claimed: the text is `regex_replace_all` of the expression's pattern,
/// `haystack` and `replacement`; and a text redacted with the secret pattern
/// and the redaction marker holds no further secret.  The latter follows
/// from the documented semantics: `replace_all` replaces the leftmost,
/// non-overlapping matches, and the pattern has no anchors or look-around,
/// so no match lies wholly inside the text between two replaced spans (the
/// leftmost search would have found it there); every character of a match
/// is alphanumeric, `.`, `_` or `-`, so none spans a bracket of the marker;
/// and the marker's inner text is shorter than any match.
#[verifier::external_body]
fn pattern_replace_all(c: &CompiledPattern, haystack: &str, replacement: &str) -> (r: String)
    ensures
        r@ == regex_replace_all(c.pattern_view(), haystack@, replacement@),
        c.pattern_view() == secret_pattern() && replacement@ == redaction() ==> !regex_is_match(
            secret_pattern(),
            r@,
        ),
{
    c.re.replace_all(haystack, replacement).to_string()
}

/// What goes wrong in the fetcher.
#[derive(Debug, PartialEq, Eq, Structural)]
pub enum FetchError {
    /// The history of earlier recommendations could not be loaded.
    HistoryUnavailable,
}

/// The pattern of tokens that must not be published (Discord tokens and MFA
/// tokens).
pub open spec fn secret_pattern() -> Seq<char> {
    "([a-zA-Z0-9]{24}\\.[a-zA-Z0-9]{6}\\.[a-zA-Z0-9_-]{27}|mfa\\.[a-zA-Z0-9_-]{84})"@
}

/// What stands in place of a removed secret.
pub open spec fn redaction() -> Seq<char> {
    "[REDACTED_SECRET]"@
}

/// A text with its secrets redacted: unchanged when the secret pattern finds
/// nothing in it.
pub open spec fn redacted(t: Seq<char>) -> Seq<char> {
    if regex_is_match(secret_pattern(), t) {
        regex_replace_all(secret_pattern(), t, redaction())
    } else {
        t
    }
}

/// An optional text with its secrets redacted.
pub open spec fn redacted_opt(t: Option<Seq<char>>) -> Option<Seq<char>> {
    match t {
        Some(s) => Some(redacted(s)),
        None => None,
    }
}

/// A text in which the secret pattern finds nothing.
pub open spec fn is_clean_text(t: Seq<char>) -> bool {
    !regex_is_match(secret_pattern(), t)
}

/// An optional text in which the secret pattern finds nothing.
pub open spec fn is_clean_opt(t: Option<Seq<char>>) -> bool {
    match t {
        Some(s) => is_clean_text(s),
        None => true,
    }
}

/// A repository whose description and README hold no secret.
pub open spec fn is_clean(r: RepoView) -> bool {
    is_clean_opt(r.description) && is_clean_opt(r.readme)
}

/// `r` with its description and README redacted, all else kept.
pub open spec fn sanitized(r: RepoView) -> RepoView {
    RepoView { description: redacted_opt(r.description), readme: redacted_opt(r.readme), ..r }
}

fn redact_opt(re: &CompiledPattern, t: &Option<String>) -> (r: Option<String>)
    requires
        re.pattern_view() == secret_pattern(),
    ensures
        r.deep_view() == redacted_opt(t.deep_view()),
        is_clean_opt(r.deep_view()),
{
    match t {
        None => None,
        Some(s) => {
            if pattern_is_match(re, s.as_str()) {
                Some(pattern_replace_all(re, s.as_str(), "[REDACTED_SECRET]"))
            } else {
                Some(s.clone())
            }
        },
    }
}

/// Whether a repository with the id of `r` occurs in `history`.
pub open spec fn in_history(history: Seq<RepoView>, id: u64) -> bool {
    exists|j: int| 0 <= j < history.len() && history[j].id == id
}

/// The repositories that may be recommended: all of them when recommending
/// again is allowed or no history is known; otherwise those whose id occurs
/// nowhere in the history.
pub open spec fn recommendable(
    repos: Seq<RepoView>,
    allow_recommend_again: bool,
    history: Option<Seq<RepoView>>,
) -> Seq<RepoView> {
    if allow_recommend_again {
        repos
    } else {
        match history {
            None => repos,
            Some(h) => if h.len() == 0 {
                repos
            } else {
                repos.filter(|r: RepoView| !in_history(h, r.id))
            },
        }
    }
}

/// Days from `then` to `now` (seconds), truncated toward zero, as
/// `(now - then).num_days()` counts them.
pub open spec fn days_between(now: i64, then: i64) -> int {
    let d = now - then;
    if d >= 0 {
        d / 86400
    } else {
        -((-d) / 86400)
    }
}

/// `(now - then).num_days()` for Unix timestamps in seconds.
pub fn days_between_exec(now: i64, then: i64) -> (r: i64)
    ensures
        r == days_between(now, then),
{
    let d: i128 = now as i128 - then as i128;
    if d >= 0 {
        (d / 86400) as i64
    } else {
        let n: i128 = -d;
        -((n / 86400) as i64)
    }
}

/// How a repository has grown since it was last recommended.
#[derive(Debug, PartialEq, Eq, Structural)]
pub enum Growth {
    /// Not in the history: a new candidate.
    New,
    /// Stars grew by more than 20% of the earlier count (`gained / base`).
    Significant { gained: u32, base: u32 },
    /// Stars grew, by at most 20%.
    Modest { gained: u32, base: u32 },
    /// No growth since the earlier recommendation.
    Stagnant,
}

/// The first entry of `history` with id `id`.
pub open spec fn find_in_history(history: Seq<RepoView>, id: u64) -> Option<RepoView>
    decreases history.len(),
{
    if history.len() == 0 {
        None
    } else if history[0].id == id {
        Some(history[0])
    } else {
        find_in_history(history.drop_first(), id)
    }
}

/// The growth class of a repository with `stars` stars, given the star count
/// it had when first found in the history (if it was): the growth rate is
/// `stars - earlier` (at least 0) over `earlier` (at least 1).
pub open spec fn growth_spec(stars: u32, earlier: Option<u32>) -> Growth {
    match earlier {
        None => Growth::New,
        Some(o) => {
            let gained = if stars > o { (stars - o) as u32 } else { 0u32 };
            let base = if o > 1 { o } else { 1u32 };
            if 5 * gained > base {
                Growth::Significant { gained, base }
            } else if gained > 0 {
                Growth::Modest { gained, base }
            } else {
                Growth::Stagnant
            }
        },
    }
}

proof fn lemma_find_in_history(history: Seq<RepoView>, id: u64, i: int)
    requires
        0 <= i <= history.len(),
        forall|j: int| 0 <= j < i ==> history[j].id != id,
    ensures
        i < history.len() && history[i].id == id ==> find_in_history(history, id) == Some(history[i]),
        i == history.len() ==> find_in_history(history, id) is None,
    decreases i,
{
    if i > 0 {
        lemma_find_in_history(history.drop_first(), id, i - 1);
    } else if history.len() > 0 {
    }
}

/// Classifies how `repo` grew since it appeared in `history` (its first entry
/// with the same id): the branches of the trend score.  A growth rate above
/// 20% is significant.
pub fn classify_growth(repo: &Repository, history: &[Repository]) -> (g: Growth)
    ensures
        g == growth_spec(
            repo.stars,
            match find_in_history(repos_view(history@), repo.id) {
                Some(o) => Some(o.stars),
                None => None,
            },
        ),
{
    let ghost hv = repos_view(history@);
    let mut i: usize = 0;
    while i < history.len() && history[i].id != repo.id
        invariant
            hv == repos_view(history@),
            i <= history.len(),
            forall|j: int| 0 <= j < i ==> hv[j].id != repo.id,
        decreases history.len() - i,
    {
        i = i + 1;
    }
    proof {
        lemma_find_in_history(hv, repo.id, i as int);
    }
    if i == history.len() {
        return Growth::New;
    }
    let o = history[i].stars;
    let gained: u32 = if repo.stars > o { repo.stars - o } else { 0 };
    let base: u32 = if o > 1 { o } else { 1 };
    if 5 * (gained as u64) > base as u64 {
        Growth::Significant { gained, base }
    } else if gained > 0 {
        Growth::Modest { gained, base }
    } else {
        Growth::Stagnant
    }
}

/// Fetches, archives and ranks GitHub's trending repositories.  It keeps the
/// GitHub token, the archive, and the history of earlier recommendations as
/// last loaded (`None` when loading failed).
pub struct TrendingFetcher {
    token: String,
    storage: DataStorage,
    history: Option<Vec<Repository>>,
}

impl TrendingFetcher {
    /// The GitHub token.
    pub closed spec fn token_view(&self) -> Seq<char> {
        self.token@
    }

    /// The archive's base directory.
    pub closed spec fn storage_dir(&self) -> Seq<char> {
        self.storage.base_dir_view()
    }

    /// The history of earlier recommendations, `None` when it could not be loaded.
    pub closed spec fn history_view(&self) -> Option<Seq<RepoView>> {
        match self.history {
            Some(h) => Some(repos_view(h@)),
            None => None,
        }
    }

    /// A fetcher for `token`, archiving under `data/github_trending`, with an
    /// empty history.
    pub fn new(token: &str) -> (r: TrendingFetcher)
        ensures
            r.token_view() == token@,
            r.storage_dir() == "data/github_trending"@,
            r.history_view() == Some(Seq::<RepoView>::empty()),
    {
        let r = TrendingFetcher {
            token: token.to_owned(),
            storage: DataStorage::new("data/github_trending"),
            history: Some(Vec::new()),
        };
        assert(repos_view(Seq::<Repository>::empty()) =~= Seq::<RepoView>::empty());
        r
    }

    /// The GitHub token.
    pub fn token(&self) -> (r: &str)
        ensures
            r@ == self.token_view(),
    {
        self.token.as_str()
    }

    /// The archive.
    pub fn storage(&self) -> (r: &DataStorage)
        ensures
            r.base_dir_view() == self.storage_dir(),
    {
        &self.storage
    }

    /// Records the history as just loaded (`None`: loading failed).
    pub fn set_history(&mut self, history: Option<Vec<Repository>>)
        ensures
            final(self).history_view() == (match history {
                Some(h) => Some(repos_view(h@)),
                None => None,
            }),
            final(self).token_view() == old(self).token_view(),
            final(self).storage_dir() == old(self).storage_dir(),
    {
        self.history = history;
    }

    /// The history of earlier recommendations, for ranking and filtering.
    pub fn get_history_data(&self) -> (r: Result<Vec<Repository>, FetchError>)
        ensures
            match self.history_view() {
                Some(h) => r matches Ok(v) && repos_view(v@) == h,
                None => r == Err::<Vec<Repository>, FetchError>(FetchError::HistoryUnavailable),
            },
    {
        match &self.history {
            Some(h) => Ok(clone_repos(h.as_slice())),
            None => Err(FetchError::HistoryUnavailable),
        }
    }

    /// The repositories that may be recommended today: all of `repos` when
    /// recommending again is allowed (the ranking decides) or when the history
    /// is unavailable or empty; otherwise those whose id the history lacks,
    /// in their order.
    pub fn filter_recommended(&self, repos: &[Repository], allow_recommend_again: bool) -> (r: Vec<
        Repository,
    >)
        ensures
            repos_view(r@) == recommendable(
                repos_view(repos@),
                allow_recommend_again,
                self.history_view(),
            ),
    {
        if allow_recommend_again {
            return clone_repos(repos);
        }
        let history = match &self.history {
            Some(h) => h,
            None => {
                return clone_repos(repos);
            },
        };
        if history.len() == 0 {
            return clone_repos(repos);
        }
        let ghost hv = repos_view(history@);
        let mut ids: Vec<u64> = Vec::new();
        let mut j: usize = 0;
        while j < history.len()
            invariant
                hv == repos_view(history@),
                j <= history.len(),
                ids.len() == j,
                forall|k: int| 0 <= k < j ==> ids@[k] == hv[k].id,
            decreases history.len() - j,
        {
            ids.push(history[j].id);
            j = j + 1;
        }
        let ghost rv = repos_view(repos@);
        let ghost pred = |r: RepoView| !in_history(hv, r.id);
        let mut out: Vec<Repository> = Vec::new();
        let mut i: usize = 0;
        while i < repos.len()
            invariant
                hv == repos_view(history@),
                rv == repos_view(repos@),
                ids.len() == hv.len(),
                forall|k: int| 0 <= k < ids.len() ==> ids@[k] == hv[k].id,
                pred == (|r: RepoView| !in_history(hv, r.id)),
                i <= repos.len(),
                repos_view(out@) == rv.take(i as int).filter(pred),
            decreases repos.len() - i,
        {
            let id = repos[i].id;
            let mut k: usize = 0;
            let mut found = false;
            while k < ids.len()
                invariant
                    ids.len() == hv.len(),
                    forall|m: int| 0 <= m < ids.len() ==> ids@[m] == hv[m].id,
                    k <= ids.len(),
                    found == exists|m: int| 0 <= m < k && hv[m].id == id,
                decreases ids.len() - k,
            {
                if ids[k] == id {
                    found = true;
                }
                k = k + 1;
            }
            assert(found == in_history(hv, id));
            let ghost old_out = out@;
            proof {
                reveal(Seq::filter);
                assert(rv.take(i + 1).drop_last() =~= rv.take(i as int));
                assert(rv.take(i + 1).last() == repos@[i as int]@);
            }
            if !found {
                let c = repos[i].duplicate();
                out.push(c);
                assert(repos_view(out@) =~= repos_view(old_out).push(c@));
            }
            i = i + 1;
        }
        assert(rv.take(repos.len() as int) =~= rv);
        out
    }

    /// Puts `repos` in recommendation order: most stars today first, then the
    /// highest trend score (`scores[i]` being that of `repos[i]`), ties in
    /// their original order.
    pub fn rank_repositories(&self, repos: &mut Vec<Repository>, scores: &[i64])
        requires
            scores.len() == old(repos).len(),
        ensures
            exists|perm: Seq<usize>|
                is_stable_ranking(rank_keys(repos_view(old(repos)@), scores@), perm)
                    && repos_view(final(repos)@) == perm.map_values(
                    |p: usize| repos_view(old(repos)@)[p as int],
                ),
    {
        rank_by_keys(repos, scores);
    }

    /// Redacts secrets (tokens) in the descriptions and READMEs of `repos`:
    /// each repository becomes `sanitized`, and none keeps a secret.
    pub fn sanitize_repos(&self, repos: &mut Vec<Repository>)
        ensures
            final(repos).len() == old(repos).len(),
            forall|i: int|
                0 <= i < old(repos).len() ==> #[trigger] final(repos)@[i]@ == sanitized(
                    old(repos)@[i]@,
                ),
            forall|i: int| 0 <= i < final(repos).len() ==> is_clean(#[trigger] final(repos)@[i]@),
    {
        let re = match compile_pattern(
            "([a-zA-Z0-9]{24}\\.[a-zA-Z0-9]{6}\\.[a-zA-Z0-9_-]{27}|mfa\\.[a-zA-Z0-9_-]{84})",
        ) {
            Ok(c) => c,
            // The secret pattern always compiles (see `compile_pattern`).
            Err(_) => {
                return;
            },
        };
        let n = repos.len();
        let ghost start = repos@;
        let mut i: usize = 0;
        while i < n
            invariant
                n == repos.len(),
                start.len() == n,
                start == old(repos)@,
                re.pattern_view() == secret_pattern(),
                i <= n,
                forall|j: int| i <= j < n ==> #[trigger] repos@[j] == start[j],
                forall|j: int| 0 <= j < i ==> #[trigger] repos@[j]@ == sanitized(start[j]@),
                forall|j: int| 0 <= j < i ==> is_clean(#[trigger] repos@[j]@),
            decreases n - i,
        {
            let d = redact_opt(&re, &repos[i].description);
            let m = redact_opt(&re, &repos[i].readme);
            repos[i].description = d;
            repos[i].readme = m;
            assert(repos@[i as int]@ =~= sanitized(start[i as int]@));
            i = i + 1;
        }
    }
}

/// When recommending again is allowed, every fetched repository stays a
/// candidate, whatever the history holds.
pub proof fn law_recommend_again_keeps_all(repos: Seq<RepoView>, history: Option<Seq<RepoView>>)
    ensures
        recommendable(repos, true, history) == repos,
{
}

/// When it is not allowed and a history is known: no repository of the
/// history is recommended again, every other one is kept, and nothing new
/// appears.
pub proof fn law_history_is_excluded(repos: Seq<RepoView>, history: Seq<RepoView>)
    ensures
        ({
            let kept = recommendable(repos, false, Some(history));
            &&& forall|k: int| 0 <= k < kept.len() ==> !in_history(history, #[trigger] kept[k].id)
            &&& forall|i: int|
                0 <= i < repos.len() && !in_history(history, repos[i].id) ==> kept.contains(
                    #[trigger] repos[i],
                )
            &&& forall|k: int| 0 <= k < kept.len() ==> repos.contains(#[trigger] kept[k])
            &&& kept.len() <= repos.len()
        }),
{
    broadcast use vstd::seq_lib::group_filter_ensures;

    let pred = |r: RepoView| !in_history(history, r.id);
    let kept = recommendable(repos, false, Some(history));
    if history.len() == 0 {
        assert forall|k: int| 0 <= k < kept.len() implies !in_history(history, #[trigger] kept[k].id) by {
        }
        assert forall|i: int| 0 <= i < repos.len() && !in_history(history, repos[i].id) implies kept.contains(
            #[trigger] repos[i],
        ) by {
            assert(kept[i] == repos[i]);
        }
        assert forall|k: int| 0 <= k < kept.len() implies repos.contains(#[trigger] kept[k]) by {
            assert(repos[k] == kept[k]);
        }
    } else {
        assert(kept == repos.filter(pred));
        assert forall|k: int| 0 <= k < kept.len() implies !in_history(history, #[trigger] kept[k].id) by {
            assert(pred(repos.filter(pred)[k]));
        }
        assert forall|i: int| 0 <= i < repos.len() && !in_history(history, repos[i].id) implies kept.contains(
            #[trigger] repos[i],
        ) by {
            assert(pred(repos[i]));
        }
        assert forall|k: int| 0 <= k < kept.len() implies repos.contains(#[trigger] kept[k]) by {
            repos.lemma_filter_contains_rev(pred, kept[k]);
        }
    }
}

/// A text in which the secret pattern finds nothing is published unchanged.
pub proof fn law_clean_text_unchanged(t: Seq<char>)
    requires
        !regex_is_match(secret_pattern(), t),
    ensures
        redacted(t) == t,
{
}

/// Sanitizing twice gives what sanitizing once gives: the repositories that
/// `sanitize_repos` leaves hold no secret, and a second pass keeps each of
/// them as it is.
pub proof fn law_sanitize_twice_is_once(first: Seq<RepoView>)
    requires
        forall|i: int| 0 <= i < first.len() ==> is_clean(#[trigger] first[i]),
    ensures
        forall|i: int| 0 <= i < first.len() ==> sanitized(#[trigger] first[i]) == first[i],
{
    assert forall|i: int| 0 <= i < first.len() implies sanitized(#[trigger] first[i]) == first[i] by {
        assert(sanitized(first[i]) =~= first[i]);
    }
}
} // verus!
