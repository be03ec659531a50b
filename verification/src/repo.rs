//! Which repository a request asks for, read from its host name, and the
//! names derived from it (clone URL, metadata file).
use vstd::prelude::*;

use crate::config::Opts;
use crate::error::AppError;
use crate::text::{
    ends_with, free_of, has_suffix, lemma_split_append_keeps, lemma_split_free, lemma_split_pair,
    split_chars, split_on,
};

verus! {

/// A repository, as `(user, repo)`.
pub type RepoKey = (Seq<char>, Seq<char>);

/// The repository `repo` of the user `user` on the git server.
#[derive(Debug)]
pub struct RequestedRepo {
    pub user: String,
    pub repo: String,
}

impl View for RequestedRepo {
    type V = RepoKey;

    open spec fn view(&self) -> RepoKey {
        (self.user@, self.repo@)
    }
}

impl Clone for RequestedRepo {
    fn clone(&self) -> (copy: Self)
        ensures
            copy@ == self@,
    {
        RequestedRepo { user: self.user.clone(), repo: self.repo.clone() }
    }
}

impl RequestedRepo {
    /// Whether both name the same repository.
    pub fn same_as(&self, other: &RequestedRepo) -> (same: bool)
        ensures
            same == (self@ == other@),
    {
        self.user == other.user && self.repo == other.repo
    }

    /// Reads the repository out of a request's host name: the host must end
    /// with `opts.host_suffix`; what stands before it is split at dots, its
    /// first piece is the repository, and its second piece, when present and
    /// not empty, the user (else `opts.git_default_repo_user`).
    pub fn from_host(host: &str, opts: &Opts) -> (parsed: Result<RequestedRepo, AppError>)
        ensures
            match (parsed, parse_host(host@, opts.host_suffix@, opts.git_default_repo_user@)) {
                (Ok(r), Ok(key)) => r@ == key,
                (Err(e), Err(f)) => e == f,
                _ => false,
            },
    {
        let suffix = opts.host_suffix.as_str();
        if !ends_with(host, suffix) {
            return Err(AppError::NotFound);
        }
        let name_len = host.unicode_len() - suffix.unicode_len();
        let name = host.substring_char(0, name_len);
        let pieces = split_chars(name, '.');
        proof {
            crate::text::lemma_split_nonempty(name@, '.');
            assert(pieces@.map_values(|p: String| p@).len() == pieces@.len());
        }
        let repo = pieces[0].clone();
        assert(repo@ == split_on(name@, '.')[0]);
        let user = if pieces.len() > 1 && pieces[1].unicode_len() > 0 {
            assert(pieces[1]@ == split_on(name@, '.')[1]);
            pieces[1].clone()
        } else {
            opts.git_default_repo_user.clone()
        };
        Ok(RequestedRepo { user, repo })
    }

    /// `{user}/{repo}`.
    pub fn to_string(&self) -> (text: String)
        ensures
            text@ == self.user@ + "/"@ + self.repo@,
    {
        let mut text = self.user.clone();
        text.append("/");
        text.append(self.repo.as_str());
        text
    }

    /// The URL to clone the repository from: `{base_url}/{user}/{repo}.git`.
    pub fn clone_url(&self, base_url: &str) -> (url: String)
        ensures
            url@ == base_url@ + "/"@ + self.user@ + "/"@ + self.repo@ + ".git"@,
    {
        let mut url = base_url.to_owned();
        url.append("/");
        url.append(self.to_string().as_str());
        url.append(".git");
        url
    }

    /// The name of the file, in the user's directory, that holds the
    /// repository's metadata: `{repo}.meta.json`.
    pub fn meta_file_name(&self) -> (name: String)
        ensures
            name@ == self.repo@ + ".meta.json"@,
    {
        let mut name = self.repo.clone();
        name.append(".meta.json");
        name
    }
}

/// The repository that a host name asks for, or why it asks for none.
pub open spec fn parse_host(host: Seq<char>, suffix: Seq<char>, default_user: Seq<char>) -> Result<
    RepoKey,
    AppError,
> {
    if !has_suffix(host, suffix) {
        Err(AppError::NotFound)
    } else {
        let pieces = split_on(host.subrange(0, host.len() - suffix.len()), '.');
        let user = if pieces.len() > 1 && pieces[1].len() > 0 {
            pieces[1]
        } else {
            default_user
        };
        Ok((user, pieces[0]))
    }
}

/// A host name `{repo}.{user}{suffix}` asks for `user`'s `repo`, when neither
/// name holds a dot and the user's is not empty.
pub proof fn law_host_names_user_and_repo(
    user: Seq<char>,
    repo: Seq<char>,
    suffix: Seq<char>,
    default_user: Seq<char>,
)
    requires
        free_of(user, '.'),
        free_of(repo, '.'),
        user.len() > 0,
    ensures
        parse_host(repo.push('.') + user + suffix, suffix, default_user) == Ok::<RepoKey, AppError>(
            (user, repo),
        ),
{
    let name = repo.push('.') + user;
    let host = name + suffix;
    assert(host.subrange(host.len() - suffix.len(), host.len() as int) =~= suffix);
    assert(host.subrange(0, host.len() - suffix.len()) =~= name);
    lemma_split_pair(repo, user, '.');
}

/// A host name `{repo}{suffix}` asks for the default user's `repo`, when the
/// repository's name holds no dot.
pub proof fn law_host_without_user(repo: Seq<char>, suffix: Seq<char>, default_user: Seq<char>)
    requires
        free_of(repo, '.'),
    ensures
        parse_host(repo + suffix, suffix, default_user) == Ok::<RepoKey, AppError>(
            (default_user, repo),
        ),
{
    let host = repo + suffix;
    assert(host.subrange(host.len() - suffix.len(), host.len() as int) =~= suffix);
    assert(host.subrange(0, host.len() - suffix.len()) =~= repo);
    lemma_split_free(repo, '.');
}

/// A host name is answered with a repository or `NotFound`, and `NotFound`
/// exactly when it does not end with the suffix.
pub proof fn law_host_answers(host: Seq<char>, suffix: Seq<char>, default_user: Seq<char>)
    ensures
        parse_host(host, suffix, default_user) is Ok || parse_host(host, suffix, default_user)
            == Err::<RepoKey, AppError>(AppError::NotFound),
        parse_host(host, suffix, default_user) is Err <==> !has_suffix(host, suffix),
{
}

/// A host name `{repo}.{user}.{rest}{suffix}` asks for `user`'s `repo`,
/// whatever `rest` is (empty too, as when the suffix has no leading dot),
/// when neither name holds a dot and the user's is not empty.
pub proof fn law_host_user_is_second_label(
    user: Seq<char>,
    repo: Seq<char>,
    rest: Seq<char>,
    suffix: Seq<char>,
    default_user: Seq<char>,
)
    requires
        free_of(user, '.'),
        free_of(repo, '.'),
        user.len() > 0,
    ensures
        parse_host(repo.push('.') + user.push('.') + rest + suffix, suffix, default_user) == Ok::<
            RepoKey,
            AppError,
        >((user, repo)),
{
    let head = repo.push('.') + user.push('.');
    let name = head + rest;
    let host = name + suffix;
    assert(host.subrange(host.len() - suffix.len(), host.len() as int) =~= suffix);
    assert(host.subrange(0, host.len() - suffix.len()) =~= name);
    lemma_split_pair(repo, user, '.');
    let pair = repo.push('.') + user;
    assert(pair.push('.') =~= head);
    assert(head.drop_last() =~= pair);
    assert(split_on(head, '.') =~= seq![repo, user, Seq::<char>::empty()]);
    lemma_split_append_keeps(head, rest, '.');
    assert(split_on(name, '.')[0] == repo);
    assert(split_on(name, '.')[1] == user);
}

/// A host name `{repo}..{rest}{suffix}`, whose user label is empty, asks for
/// the default user's `repo`, whatever `rest` is.
pub proof fn law_host_empty_user_label(
    repo: Seq<char>,
    rest: Seq<char>,
    suffix: Seq<char>,
    default_user: Seq<char>,
)
    requires
        free_of(repo, '.'),
    ensures
        parse_host(repo.push('.').push('.') + rest + suffix, suffix, default_user) == Ok::<
            RepoKey,
            AppError,
        >((default_user, repo)),
{
    let one = repo.push('.');
    let head = one.push('.');
    let name = head + rest;
    let host = name + suffix;
    assert(host.subrange(host.len() - suffix.len(), host.len() as int) =~= suffix);
    assert(host.subrange(0, host.len() - suffix.len()) =~= name);
    lemma_split_free(repo, '.');
    assert(one.drop_last() =~= repo);
    assert(split_on(one, '.') =~= seq![repo, Seq::<char>::empty()]);
    assert(head.drop_last() =~= one);
    assert(split_on(head, '.') =~= seq![repo, Seq::<char>::empty(), Seq::<char>::empty()]);
    lemma_split_append_keeps(head, rest, '.');
    assert(split_on(name, '.')[0] == repo);
    assert(split_on(name, '.')[1] == Seq::<char>::empty());
}

} // verus!
