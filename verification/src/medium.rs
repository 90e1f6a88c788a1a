use vstd::prelude::*;
use vstd::string::StringExecFns;
use crate::config::{PlatformConfig, setting_value};
use crate::models::{RepoView, Repository, repos_view};
use crate::pipeline::take_at_most;
use crate::text::str_eq;

verus! {

/// A post for Medium's "create post" call.
pub struct CreatePostRequest {
    pub title: String,
    pub content_format: String,
    pub content: String,
    pub tags: Vec<String>,
    pub publish_status: String,
}

/// The platforms that posts can be pushed to.
#[derive(Debug, PartialEq, Eq, Structural)]
pub enum PlatformKind {
    Medium,
    Csdn,
    Unknown,
}

/// What goes wrong before pushing.
#[derive(Debug, PartialEq, Eq, Structural)]
pub enum PushError {
    /// A Medium platform without a string `integration_token` setting.
    MissingIntegrationToken,
    /// A CSDN platform without both a username and a password.
    MissingCsdnCredentials,
}

/// The title of a repository's post.
pub open spec fn post_title_spec(r: RepoView) -> Seq<char> {
    "GitHub Trending: "@ + r.name
}

/// The tags of a repository's post: "GitHub", "Open Source", its language,
/// its first topic; at most five.
pub open spec fn post_tags_spec(r: RepoView) -> Seq<Seq<char>> {
    take_at_most(
        seq!["GitHub"@, "Open Source"@] + (match r.language {
            Some(l) => seq![l],
            None => Seq::empty(),
        }) + (if r.topics.len() > 0 {
            seq![r.topics[0]]
        } else {
            Seq::empty()
        }),
        5,
    )
}

/// The title of the post for `repo`.
pub fn post_title(repo: &Repository) -> (r: String)
    ensures
        r@ == post_title_spec(repo@),
{
    let mut t = String::from_str("GitHub Trending: ");
    t.append(repo.name.as_str());
    t
}

/// The tags of the post for `repo`.
pub fn post_tags(repo: &Repository) -> (r: Vec<String>)
    ensures
        r.deep_view() == post_tags_spec(repo@),
{
    let mut tags: Vec<String> = Vec::new();
    tags.push(String::from_str("GitHub"));
    tags.push(String::from_str("Open Source"));
    assert(tags.deep_view() =~= seq!["GitHub"@, "Open Source"@]);
    let ghost t0 = tags.deep_view();
    if let Some(l) = &repo.language {
        tags.push(l.clone());
        assert(tags.deep_view() =~= t0.push(l@));
    }
    let ghost t1 = tags.deep_view();
    if repo.topics.len() > 0 {
        tags.push(repo.topics[0].clone());
        assert(tags.deep_view() =~= t1.push(repo.topics[0]@));
    }
    assert(repo@.topics.len() > 0 ==> repo@.topics[0] == repo.topics[0]@);
    let ghost t2 = tags.deep_view();
    tags.truncate(5);
    assert(tags.deep_view() =~= take_at_most(t2, 5));
    assert(t2 =~= seq!["GitHub"@, "Open Source"@] + (match repo@.language {
        Some(l) => seq![l],
        None => Seq::<Seq<char>>::empty(),
    }) + (if repo@.topics.len() > 0 {
        seq![repo@.topics[0]]
    } else {
        Seq::<Seq<char>>::empty()
    }));
    tags
}

/// The Medium post publishing `content` (Markdown) about `repo`.
pub fn post_request(repo: &Repository, content: &str) -> (r: CreatePostRequest)
    ensures
        r.title@ == post_title_spec(repo@),
        r.content_format@ == "markdown"@,
        r.content@ == content@,
        r.tags.deep_view() == post_tags_spec(repo@),
        r.publish_status@ == "public"@,
{
    CreatePostRequest {
        title: post_title(repo),
        content_format: String::from_str("markdown"),
        content: content.to_owned(),
        tags: post_tags(repo),
        publish_status: String::from_str("public"),
    }
}

/// Where posts of the Medium user `user_id` are created.
pub fn posts_url(user_id: &str) -> (r: String)
    ensures
        r@ == "https://api.medium.com/v1/users/"@ + user_id@ + "/posts"@,
{
    let mut u = String::from_str("https://api.medium.com/v1/users/");
    u.append(user_id);
    u.append("/posts");
    u
}

/// The kind of the platform named `name`.
pub fn platform_kind(name: &str) -> (r: PlatformKind)
    ensures
        r == (if name@ == "medium"@ {
            PlatformKind::Medium
        } else if name@ == "csdn"@ {
            PlatformKind::Csdn
        } else {
            PlatformKind::Unknown
        }),
{
    if str_eq(name, "medium") {
        PlatformKind::Medium
    } else if str_eq(name, "csdn") {
        PlatformKind::Csdn
    } else {
        PlatformKind::Unknown
    }
}

/// The CSDN account of a platform: its username and password (from the
/// configuration, or from `CSDN_USERNAME` and `CSDN_PASSWORD`), both needed.
pub fn csdn_credentials(platform: &PlatformConfig) -> (r: Result<(String, String), PushError>)
    ensures
        match (platform.username.deep_view(), platform.password.deep_view()) {
            (Some(u), Some(p)) => r matches Ok(c) && c.0@ == u && c.1@ == p,
            _ => r == Err::<(String, String), PushError>(PushError::MissingCsdnCredentials),
        },
{
    match (&platform.username, &platform.password) {
        (Some(u), Some(p)) => Ok((u.clone(), p.clone())),
        _ => Err(PushError::MissingCsdnCredentials),
    }
}

/// The Medium integration token of a platform: its `integration_token`
/// setting, which must be a string.
pub fn integration_token(platform: &PlatformConfig) -> (r: Result<String, PushError>)
    ensures
        match setting_value(platform.extra.deep_view(), "integration_token"@) {
            Some(t) => r matches Ok(s) && s@ == t,
            None => r == Err::<String, PushError>(PushError::MissingIntegrationToken),
        },
{
    match platform.string_setting("integration_token") {
        Some(t) => Ok(t),
        None => Err(PushError::MissingIntegrationToken),
    }
}

/// The repositories that have a README, each with it: what is pushed.
pub open spec fn postable_spec(repos: Seq<RepoView>) -> Seq<(RepoView, Seq<char>)>
    decreases repos.len(),
{
    if repos.len() == 0 {
        Seq::empty()
    } else {
        let rest = postable_spec(repos.drop_last());
        match repos.last().readme {
            Some(m) => rest.push((repos.last(), m)),
            None => rest,
        }
    }
}

/// The repositories of `repos` that have a README, paired with it.
pub fn postable_items(repos: &[Repository]) -> (r: Vec<(Repository, String)>)
    ensures
        r@.map_values(|p: (Repository, String)| (p.0@, p.1@)) == postable_spec(repos_view(repos@)),
{
    let ghost rv = repos_view(repos@);
    let ghost f = |p: (Repository, String)| (p.0@, p.1@);
    let mut out: Vec<(Repository, String)> = Vec::new();
    let mut i: usize = 0;
    while i < repos.len()
        invariant
            rv == repos_view(repos@),
            f == (|p: (Repository, String)| (p.0@, p.1@)),
            i <= repos.len(),
            out@.map_values(f) == postable_spec(rv.take(i as int)),
        decreases repos.len() - i,
    {
        let ghost old_out = out@;
        proof {
            assert(rv.take(i + 1).drop_last() =~= rv.take(i as int));
            assert(rv.take(i + 1).last() == repos@[i as int]@);
        }
        if let Some(m) = &repos[i].readme {
            let item = (repos[i].duplicate(), m.clone());
            out.push(item);
            assert(out@.map_values(f) =~= old_out.map_values(f).push(f(item)));
        }
        i = i + 1;
    }
    assert(rv.take(repos.len() as int) =~= rv);
    out
}


/// A post carries at most five tags, the first two being "GitHub" and
/// "Open Source".
pub proof fn law_post_tags(r: RepoView)
    ensures
        post_tags_spec(r).len() <= 5,
        post_tags_spec(r).len() >= 2,
        post_tags_spec(r)[0] == "GitHub"@,
        post_tags_spec(r)[1] == "Open Source"@,
{
}

/// The tags of a post, in order: "GitHub", "Open Source", then the
/// repository's language when it has one, then its first topic when it has
/// any; the two are added independently of each other.
pub proof fn law_post_tags_carry_language_and_first_topic(r: RepoView)
    ensures
        ({
            let tags = post_tags_spec(r);
            let nl: int = if r.language is Some { 1 } else { 0 };
            &&& tags.len() == 2 + nl + (if r.topics.len() > 0 { 1int } else { 0 })
            &&& tags[0] == "GitHub"@
            &&& tags[1] == "Open Source"@
            &&& (r.language matches Some(l) ==> tags[2] == l)
            &&& (r.topics.len() > 0 ==> tags[2 + nl] == r.topics[0])
            &&& (r.topics.len() > 0 ==> tags.contains(r.topics[0]))
        }),
{
    let tags = post_tags_spec(r);
    let nl: int = if r.language is Some { 1 } else { 0 };
    let base = seq!["GitHub"@, "Open Source"@] + (match r.language {
        Some(l) => seq![l],
        None => Seq::empty(),
    }) + (if r.topics.len() > 0 {
        seq![r.topics[0]]
    } else {
        Seq::empty()
    });
    assert(base.len() <= 4);
    assert(tags == base);
    if r.topics.len() > 0 {
        assert(tags[2 + nl] == r.topics[0]);
    }
}
} // verus!
