use vstd::prelude::*;

verus! {

/// The owner of a repository.
#[derive(Debug)]
pub struct Owner {
    pub login: String,
    pub avatar_url: String,
}

/// A GitHub repository as the trending fetcher reports it.  Times are Unix
/// timestamps in seconds (UTC).
#[derive(Debug)]
pub struct Repository {
    pub id: u64,
    pub name: String,
    pub full_name: String,
    pub description: Option<String>,
    pub html_url: String,
    pub stars: u32,
    pub forks: u32,
    pub language: Option<String>,
    pub topics: Vec<String>,
    pub created_at: i64,
    pub updated_at: i64,
    pub pushed_at: i64,
    pub open_issues: u32,
    pub owner: Owner,
    pub readme: Option<String>,
    pub stars_today: Option<u32>,
}

/// The mathematical value of a [`Repository`]: its text fields as character
/// sequences.
pub struct RepoView {
    pub id: u64,
    pub name: Seq<char>,
    pub full_name: Seq<char>,
    pub description: Option<Seq<char>>,
    pub html_url: Seq<char>,
    pub stars: u32,
    pub forks: u32,
    pub language: Option<Seq<char>>,
    pub topics: Seq<Seq<char>>,
    pub created_at: i64,
    pub updated_at: i64,
    pub pushed_at: i64,
    pub open_issues: u32,
    pub owner_login: Seq<char>,
    pub owner_avatar_url: Seq<char>,
    pub readme: Option<Seq<char>>,
    pub stars_today: Option<u32>,
}

impl View for Repository {
    type V = RepoView;

    open spec fn view(&self) -> RepoView {
        RepoView {
            id: self.id,
            name: self.name@,
            full_name: self.full_name@,
            description: self.description.deep_view(),
            html_url: self.html_url@,
            stars: self.stars,
            forks: self.forks,
            language: self.language.deep_view(),
            topics: self.topics.deep_view(),
            created_at: self.created_at,
            updated_at: self.updated_at,
            pushed_at: self.pushed_at,
            open_issues: self.open_issues,
            owner_login: self.owner.login@,
            owner_avatar_url: self.owner.avatar_url@,
            readme: self.readme.deep_view(),
            stars_today: self.stars_today,
        }
    }
}

/// The views of a sequence of repositories.
pub open spec fn repos_view(s: Seq<Repository>) -> Seq<RepoView> {
    s.map_values(|r: Repository| r@)
}

/// A generated summary of a repository.
#[derive(Debug)]
pub struct Summary {
    pub content: String,
    pub language: String,
    pub key_points: Vec<String>,
}

/// A copy of an optional string.
pub fn clone_opt_string(s: &Option<String>) -> (r: Option<String>)
    ensures
        r.deep_view() == s.deep_view(),
{
    match s {
        Some(t) => Some(t.clone()),
        None => None,
    }
}

/// A copy of a list of strings.
pub fn clone_strings(v: &Vec<String>) -> (r: Vec<String>)
    ensures
        r.deep_view() == v.deep_view(),
{
    let mut r: Vec<String> = Vec::new();
    let mut i: usize = 0;
    while i < v.len()
        invariant
            i <= v.len(),
            r.deep_view() =~= v.deep_view().take(i as int),
        decreases v.len() - i,
    {
        let ghost old_r = r.deep_view();
        let c = v[i].clone();
        r.push(c);
        assert(r.deep_view() =~= old_r.push(v[i as int]@));
        assert(v.deep_view().take(i + 1) =~= v.deep_view().take(i as int).push(v[i as int]@));
        i = i + 1;
    }
    assert(v.deep_view().take(i as int) =~= v.deep_view());
    r
}

impl Repository {
    /// A copy of this repository.
    pub fn duplicate(&self) -> (r: Repository)
        ensures
            r@ == self@,
    {
        Repository {
            id: self.id,
            name: self.name.clone(),
            full_name: self.full_name.clone(),
            description: clone_opt_string(&self.description),
            html_url: self.html_url.clone(),
            stars: self.stars,
            forks: self.forks,
            language: clone_opt_string(&self.language),
            topics: clone_strings(&self.topics),
            created_at: self.created_at,
            updated_at: self.updated_at,
            pushed_at: self.pushed_at,
            open_issues: self.open_issues,
            owner: Owner { login: self.owner.login.clone(), avatar_url: self.owner.avatar_url.clone() },
            readme: clone_opt_string(&self.readme),
            stars_today: self.stars_today,
        }
    }
}

/// A copy of a slice of repositories (`repos.to_vec()`).
pub fn clone_repos(repos: &[Repository]) -> (r: Vec<Repository>)
    ensures
        repos_view(r@) == repos_view(repos@),
{
    let mut r: Vec<Repository> = Vec::new();
    let mut i: usize = 0;
    while i < repos.len()
        invariant
            i <= repos.len(),
            repos_view(r@) =~= repos_view(repos@).take(i as int),
        decreases repos.len() - i,
    {
        let ghost old_r = r@;
        let c = repos[i].duplicate();
        r.push(c);
        assert(r@ == old_r.push(c));
        assert(repos_view(r@) =~= repos_view(old_r).push(repos@[i as int]@));
        assert(repos_view(repos@).take(i + 1) =~= repos_view(repos@).take(i as int).push(repos@[i as int]@));
        i = i + 1;
    }
    assert(repos_view(repos@).take(i as int) =~= repos_view(repos@));
    r
}

} // verus!
