//! What holds of normalisation on whole classes of inputs.

use vstd::prelude::*;
use crate::classes::{is_name_char, is_owner_char};
use crate::identifier::{
    captured, cleaned, first_marker, git_suffix, has_marker, host_marker,
    lemma_first_marker_unique, lemma_joined_is_valid, lemma_split_is_first_slash, marker_hit,
    normalized, repo_text, split_point, splits_at, valid_label, valid_name, valid_owner,
    valid_repo, RepoName, ValidationFault,
};
use crate::text::{ends_with, occurs_at};

verus! {

/// No character of an owner or of a name is a slash or a line feed, and no character of an
/// owner is a dot.
pub proof fn lemma_plain_chars(c: char)
    ensures
        is_owner_char(c) ==> c != '/' && c != '\n' && c != '.',
        is_name_char(c) ==> c != '/' && c != '\n',
{
}

/// In a string of the shape `owner/name`, split at `k`, every character but the slash is
/// one of the owner or of the name.
pub proof fn lemma_repo_chars(s: Seq<char>, k: int)
    requires
        splits_at(s, k),
    ensures
        forall|j: int| 0 <= j < k ==> is_owner_char(#[trigger] s[j]),
        forall|j: int| k < j < s.len() ==> is_name_char(#[trigger] s[j]),
        forall|j: int| 0 <= j < s.len() ==> #[trigger] s[j] != '\n',
        k + 1 < s.len(),
        s.last() != '/',
{
    assert forall|j: int| 0 <= j < k implies is_owner_char(#[trigger] s[j]) by {
        assert(s.take(k)[j] == s[j]);
    }
    assert forall|j: int| k < j < s.len() implies is_name_char(#[trigger] s[j]) by {
        assert(s.skip(k + 1)[j - k - 1] == s[j]);
    }
    assert forall|j: int| 0 <= j < s.len() implies #[trigger] s[j] != '\n' by {
        lemma_plain_chars(s[j]);
    }
    assert(s.skip(k + 1).len() > 0);
    lemma_plain_chars(s.last());
}

/// A string of the shape `owner/name` holds no host marker.
pub proof fn lemma_valid_has_no_marker(s: Seq<char>)
    requires
        valid_repo(s),
    ensures
        !has_marker(s),
{
    let k = split_point(s);
    lemma_split_is_first_slash(s, k);
    lemma_repo_chars(s, k);
    reveal_strlit("github.com/");
    if has_marker(s) {
        let i = first_marker(s);
        assert(marker_hit(s, i));
        let sub = s.subrange(i, i + 11);
        assert(sub[10] == '/' && sub[6] == '.');
        assert(s[i + 10] == '/' && s[i + 6] == '.');
        assert(i + 10 == k);
        lemma_plain_chars(s[i + 6]);
    }
}

/// A string of the shape `owner/name` that does not end in `.git` is its own candidate,
/// and normalisation gives its two parts.
pub proof fn lemma_valid_is_fixed(s: Seq<char>)
    requires
        valid_repo(s),
        !ends_with(s, git_suffix()),
    ensures
        cleaned(s) == s,
        normalized(s) == Ok::<RepoName, ValidationFault>(
            RepoName { owner: s.take(split_point(s)), name: s.skip(split_point(s) + 1) },
        ),
{
    let k = split_point(s);
    lemma_repo_chars(s, k);
    lemma_valid_has_no_marker(s);
    assert(s.take(s.len() as int) =~= s);
}

/// The two parts of a string of the shape `owner/name` make up that string.
pub proof fn lemma_parts_make_whole(s: Seq<char>)
    requires
        valid_repo(s),
    ensures
        repo_text(RepoName { owner: s.take(split_point(s)), name: s.skip(split_point(s) + 1) })
            == s,
{
    let k = split_point(s);
    assert(s.take(k).push('/') + s.skip(k + 1) =~= s);
}

/// Normalising twice gives what normalising once gives: where a string of the shape
/// `owner/name` is accepted, the text of the identifier is accepted too, as the same
/// identifier. This holds of every such string but those in `.git.git`, of which each
/// pass takes one `.git`.
pub proof fn lemma_normalize_idempotent(s: Seq<char>)
    requires
        valid_repo(s),
        !ends_with(s, git_suffix() + git_suffix()),
    ensures
        normalized(s) matches Ok(id) ==> normalized(repo_text(id)) == Ok::<
            RepoName,
            ValidationFault,
        >(id),
{
    let k = split_point(s);
    lemma_repo_chars(s, k);
    lemma_valid_has_no_marker(s);
    reveal_strlit(".git");
    let t = cleaned(s);
    if valid_repo(t) {
        lemma_parts_make_whole(t);
        if ends_with(s, git_suffix()) {
            assert(t == s.take(s.len() - 4));
            if ends_with(t, git_suffix()) {
                let both = git_suffix() + git_suffix();
                assert(s.subrange(s.len() - 4, s.len() as int) == git_suffix());
                assert(t.subrange(t.len() - 4, t.len() as int) == git_suffix());
                assert(s.subrange(s.len() - 8, s.len() as int) =~= both) by {
                    assert forall|j: int| 0 <= j < 8 implies s.subrange(
                        s.len() - 8,
                        s.len() as int,
                    )[j] == both[j] by {
                        if j < 4 {
                            assert(t.subrange(t.len() - 4, t.len() as int)[j] == s[s.len() - 8
                                + j]);
                        } else {
                            assert(s.subrange(s.len() - 4, s.len() as int)[j - 4] == s[s.len()
                                - 8 + j]);
                        }
                    }
                }
                assert(false);
            }
        } else {
            assert(s.take(s.len() as int) =~= s);
        }
        lemma_valid_is_fixed(t);
    }
}

/// An owner, a slash and a name that does not end in `.git` make a string that does not
/// end in `.git` either.
pub proof fn lemma_joined_suffix(owner: Seq<char>, name: Seq<char>)
    requires
        valid_owner(owner),
        valid_name(name),
        !ends_with(name, git_suffix()),
    ensures
        !ends_with(owner.push('/') + name, git_suffix()),
{
    let t = owner.push('/') + name;
    reveal_strlit(".git");
    if ends_with(t, git_suffix()) {
        let tail = t.subrange(t.len() - 4, t.len() as int);
        if name.len() >= 4 {
            assert(name.subrange(name.len() - 4, name.len() as int) =~= tail);
        } else {
            let j = 4 - name.len() - 1;
            assert(tail[j] == t[owner.len() as int]);
            assert(t[owner.len() as int] == '/');
        }
    }
}

/// The three ways to write a repository give one identifier: for every owner and every
/// name that does not end in `.git`, the clone address
/// `https://github.com/owner/name.git/`, the page address `https://github.com/owner/name`
/// and the plain `owner/name` are all normalised to that owner and that name.
pub proof fn lemma_address_forms_agree(owner: Seq<char>, name: Seq<char>)
    requires
        valid_owner(owner),
        valid_name(name),
        !ends_with(name, git_suffix()),
    ensures
        normalized("https://github.com/"@ + repo_text(RepoName { owner, name }) + ".git/"@) == Ok::<
            RepoName,
            ValidationFault,
        >(RepoName { owner, name }),
        normalized("https://github.com/"@ + repo_text(RepoName { owner, name })) == Ok::<
            RepoName,
            ValidationFault,
        >(RepoName { owner, name }),
        normalized(repo_text(RepoName { owner, name })) == Ok::<RepoName, ValidationFault>(
            RepoName { owner, name },
        ),
{
    let id = RepoName { owner, name };
    let t = repo_text(id);
    let k = owner.len() as int;
    lemma_joined_is_valid(owner, name);
    lemma_split_is_first_slash(t, k);
    lemma_repo_chars(t, k);
    lemma_joined_suffix(owner, name);
    assert(t.take(k) =~= owner);
    assert(t.skip(k + 1) =~= name);
    // The plain form.
    lemma_valid_is_fixed(t);
    // The page address.
    let page = "https://github.com/"@ + t;
    reveal_strlit("https://github.com/");
    reveal_strlit(".git/");
    reveal_strlit(".git");
    lemma_marker_after_scheme(t, Seq::empty());
    assert(t + Seq::<char>::empty() =~= t);
    assert(page.skip(19) =~= t);
    assert(captured(t) == t) by {
        reveal_strlit(".git");
        if ends_with(t, git_suffix().push('/')) {
            assert(t.subrange(t.len() - 5, t.len() as int)[4] == t.last());
        }
    }
    // The clone address.
    let clone = "https://github.com/"@ + t + ".git/"@;
    lemma_marker_after_scheme(t, ".git/"@);
    let rest = t + ".git/"@;
    assert(clone.skip(19) =~= rest);
    assert(rest.subrange(rest.len() - 5, rest.len() as int) =~= git_suffix().push('/'));
    assert(rest.take(rest.len() - 5) =~= t);
}

/// In `https://github.com/`, then a string of the shape `owner/name`, then a tail without
/// a line feed, the host marker that introduces the repository is the one of the scheme.
proof fn lemma_marker_after_scheme(t: Seq<char>, tail: Seq<char>)
    requires
        valid_repo(t),
        forall|j: int| 0 <= j < tail.len() ==> tail[j] != '\n',
    ensures
        has_marker("https://github.com/"@ + t + tail),
        first_marker("https://github.com/"@ + t + tail) == 8,
        host_marker().len() == 11,
{
    let s = "https://github.com/"@ + t + tail;
    reveal_strlit("https://github.com/");
    reveal_strlit("github.com/");
    lemma_repo_chars(t, split_point(t));
    assert(s.subrange(8, 19) =~= host_marker());
    assert forall|j: int| 19 <= j < s.len() implies s[j] != '\n' by {
        if j < 19 + t.len() {
            assert(s[j] == t[j - 19]);
        } else {
            assert(s[j] == tail[j - 19 - t.len()]);
        }
    }
    assert(marker_hit(s, 8));
    assert forall|j: int| 0 <= j < 8 implies !marker_hit(s, j) by {
        if occurs_at(s, host_marker(), j) {
            assert(s.subrange(j, j + 11)[0] == s[j]);
        }
    }
    lemma_first_marker_unique(s, 8);
}

/// A candidate without an owner, with an owner that starts with a hyphen, or with more
/// than one slash names no repository: normalisation fails with `InvalidRepoIdentifier`
/// and the candidate.
pub proof fn lemma_malformed_is_rejected(raw: Seq<char>)
    requires
        ({
            let t = cleaned(raw);
            ||| t.len() == 0
            ||| t[0] == '/'
            ||| t[0] == '-'
            ||| exists|i: int, j: int| 0 <= i < j < t.len() && t[i] == '/' && t[j] == '/'
        }),
    ensures
        normalized(raw) == Err::<RepoName, ValidationFault>(
            ValidationFault::InvalidRepoIdentifier(cleaned(raw)),
        ),
{
    let t = cleaned(raw);
    if valid_repo(t) {
        let k = split_point(t);
        lemma_split_is_first_slash(t, k);
        assert(t.take(k)[0] == t[0]);
    }
}

/// A text that holds no `github.com/` and ends neither in a slash nor in `.git` is its
/// own candidate.
pub proof fn lemma_plain_is_own_candidate(raw: Seq<char>)
    requires
        forall|i: int| !occurs_at(raw, host_marker(), i),
        raw.len() == 0 || raw.last() != '/',
        !ends_with(raw, git_suffix()),
    ensures
        cleaned(raw) == raw,
{
    if has_marker(raw) {
        assert(marker_hit(raw, first_marker(raw)));
    }
}

/// A release label is one plain component of a path: it is not empty, it holds no
/// separator, and it does not start with a dot, so it is neither `.` nor `..`.
pub proof fn lemma_label_is_one_component(s: Seq<char>)
    requires
        valid_label(s),
    ensures
        s.len() > 0,
        s[0] != '.',
        forall|i: int| 0 <= i < s.len() ==> s[i] != '/' && s[i] != '\\' && s[i] != '\n',
{
    assert forall|i: int| 0 <= i < s.len() implies s[i] != '/' && s[i] != '\\' && s[i]
        != '\n' by {
        assert(is_name_char(s[i]));
    }
}

} // verus!
