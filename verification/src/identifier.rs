//! Repository identifiers and release labels: the grammars, and the values that have
//! passed them.

use vstd::prelude::*;
use vstd::string::StringExecFns;
use vstd::string::StrSliceExecFns;
use crate::classes::{
    ascii_letter, is_ascii_letter, is_name_char, is_owner_char, is_word, name_char_at,
    owner_char_at, word_at,
};
use crate::text::{chars_of, ends_with, has_suffix, matches_at, occurs_at};

verus! {

/// An owner: it starts with an ASCII letter, holds letters, digits and hyphens, and no two
/// hyphens stand side by side.
pub open spec fn valid_owner(o: Seq<char>) -> bool {
    &&& o.len() > 0
    &&& is_ascii_letter(o[0])
    &&& forall|i: int| 0 <= i < o.len() ==> is_owner_char(#[trigger] o[i])
    &&& forall|i: int| 0 <= i < o.len() - 1 ==> !(#[trigger] o[i] == '-' && o[i + 1] == '-')
}

/// A repository name: one or more word characters, dots and hyphens.
pub open spec fn valid_name(n: Seq<char>) -> bool {
    &&& n.len() > 0
    &&& forall|i: int| 0 <= i < n.len() ==> is_name_char(#[trigger] n[i])
}

/// `s` is an owner, a slash at position `k`, and a name.
pub open spec fn splits_at(s: Seq<char>, k: int) -> bool {
    &&& 0 <= k < s.len()
    &&& s[k] == '/'
    &&& valid_owner(s.take(k))
    &&& valid_name(s.skip(k + 1))
}

/// `s` has the shape `owner/name`.
pub open spec fn valid_repo(s: Seq<char>) -> bool {
    exists|k: int| splits_at(s, k)
}

/// The position of the slash in a string of the shape `owner/name`.
pub open spec fn split_point(s: Seq<char>) -> int {
    choose|k: int| splits_at(s, k)
}

/// A release label: a word character, then word characters, dots and hyphens.
pub open spec fn valid_label(s: Seq<char>) -> bool {
    &&& s.len() > 0
    &&& is_word(s[0])
    &&& forall|i: int| 0 <= i < s.len() ==> is_name_char(#[trigger] s[i])
}

/// A string of the shape `owner/name` has its only slash at `k`.
pub proof fn lemma_split_is_first_slash(s: Seq<char>, k: int)
    requires
        splits_at(s, k),
    ensures
        forall|j: int| 0 <= j < s.len() && j != k ==> s[j] != '/',
        split_point(s) == k,
{
    assert forall|j: int| 0 <= j < s.len() && j != k implies s[j] != '/' by {
        if j < k {
            assert(s.take(k)[j] == s[j]);
            assert(is_owner_char(s.take(k)[j]));
        } else {
            assert(s.skip(k + 1)[j - k - 1] == s[j]);
            assert(is_name_char(s.skip(k + 1)[j - k - 1]));
        }
    }
    let c = split_point(s);
    assert(splits_at(s, c));
}

fn check_owner(text: &str, v: &Vec<char>, end: usize) -> (b: bool)
    requires
        v@ == text@,
        end <= v.len(),
    ensures
        b == valid_owner(v@.take(end as int)),
{
    let ghost o = v@.take(end as int);
    if end == 0 || !ascii_letter(v[0]) {
        return false;
    }
    let mut i: usize = 0;
    while i < end
        invariant
            i <= end <= v.len(),
            v@ == text@,
            o == v@.take(end as int),
            forall|j: int| 0 <= j < i ==> is_owner_char(#[trigger] o[j]),
            forall|j: int| 0 <= j < i - 1 ==> !(#[trigger] o[j] == '-' && o[j + 1] == '-'),
        decreases end - i,
    {
        if !owner_char_at(text, v, i) {
            assert(!is_owner_char(o[i as int]));
            return false;
        }
        if i > 0 && v[i] == '-' && v[i - 1] == '-' {
            assert(o[i - 1] == '-' && o[i - 1 + 1] == '-');
            return false;
        }
        i += 1;
    }
    true
}

fn check_name(text: &str, v: &Vec<char>, start: usize) -> (b: bool)
    requires
        v@ == text@,
        start <= v.len(),
    ensures
        b == valid_name(v@.skip(start as int)),
{
    let ghost n = v@.skip(start as int);
    if start == v.len() {
        return false;
    }
    let mut i: usize = start;
    while i < v.len()
        invariant
            start <= i <= v.len(),
            v@ == text@,
            n == v@.skip(start as int),
            forall|j: int| 0 <= j < i - start ==> is_name_char(#[trigger] n[j]),
        decreases v.len() - i,
    {
        if !name_char_at(text, v, i) {
            assert(!is_name_char(n[i - start]));
            return false;
        }
        i += 1;
    }
    true
}

/// Finds the slash of a string of the shape `owner/name`, if it has that shape.
fn parse_repo(text: &str, v: &Vec<char>) -> (r: Option<usize>)
    requires
        v@ == text@,
    ensures
        r is Some <==> valid_repo(v@),
        r matches Some(k) ==> splits_at(v@, k as int),
{
    let mut k: usize = 0;
    while k < v.len() && v[k] != '/'
        invariant
            k <= v.len(),
            forall|j: int| 0 <= j < k ==> v@[j] != '/',
        decreases v.len() - k,
    {
        k += 1;
    }
    if k < v.len() && check_owner(text, v, k) && check_name(text, v, k + 1) {
        assert(splits_at(v@, k as int));
        Some(k)
    } else {
        proof {
            if valid_repo(v@) {
                let c = split_point(v@);
                lemma_split_is_first_slash(v@, c);
            }
        }
        None
    }
}

/// The text after which a repository is named in a link to the host.
pub open spec fn host_marker() -> Seq<char> {
    "github.com/"@
}

/// The suffix that a clone address carries after the repository's name.
pub open spec fn git_suffix() -> Seq<char> {
    ".git"@
}

/// The host marker stands at `i`, and what follows it is not empty and holds no line feed.
pub open spec fn marker_hit(s: Seq<char>, i: int) -> bool {
    &&& occurs_at(s, host_marker(), i)
    &&& i + host_marker().len() < s.len()
    &&& forall|j: int| i + host_marker().len() <= j < s.len() ==> s[j] != '\n'
}

/// `i` is the leftmost position at which the host marker introduces a repository.
pub open spec fn is_first_marker(s: Seq<char>, i: int) -> bool {
    marker_hit(s, i) && forall|j: int| 0 <= j < i ==> !marker_hit(s, j)
}

pub open spec fn has_marker(s: Seq<char>) -> bool {
    exists|i: int| is_first_marker(s, i)
}

pub open spec fn first_marker(s: Seq<char>) -> int {
    choose|i: int| is_first_marker(s, i)
}

/// What is left of the text after the host marker: the shortest non-empty beginning that
/// is followed by nothing more than `.git` and a slash, each optional.
pub open spec fn captured(rest: Seq<char>) -> Seq<char> {
    if rest.len() > 5 && ends_with(rest, git_suffix().push('/')) {
        rest.take(rest.len() - 5)
    } else if rest.len() > 4 && ends_with(rest, git_suffix()) {
        rest.take(rest.len() - 4)
    } else if rest.len() > 1 && rest.last() == '/' {
        rest.take(rest.len() - 1)
    } else {
        rest
    }
}

/// A string without its trailing slash, if it has one, and then without a trailing `.git`.
pub open spec fn trimmed(s: Seq<char>) -> Seq<char> {
    let a = if s.len() > 0 && s.last() == '/' {
        s.drop_last()
    } else {
        s
    };
    if ends_with(a, git_suffix()) {
        a.take(a.len() - 4)
    } else {
        a
    }
}

/// The candidate identifier in `raw`: what follows the leftmost host marker, or else the
/// whole of `raw`, in both cases without the decorations of an address.
pub open spec fn cleaned(raw: Seq<char>) -> Seq<char> {
    if has_marker(raw) {
        captured(raw.skip(first_marker(raw) + host_marker().len()))
    } else {
        trimmed(raw)
    }
}

/// At most one position is the leftmost hit.
pub proof fn lemma_first_marker_unique(s: Seq<char>, i: int)
    requires
        is_first_marker(s, i),
    ensures
        has_marker(s),
        first_marker(s) == i,
{
    let c = first_marker(s);
    assert(is_first_marker(s, c));
    if c < i {
        assert(!marker_hit(s, c));
    } else if i < c {
        assert(!marker_hit(s, i));
    }
}

/// Finds the leftmost host marker that introduces a repository.
fn find_marker(v: &Vec<char>) -> (r: Option<usize>)
    ensures
        r is Some <==> has_marker(v@),
        r matches Some(i) ==> is_first_marker(v@, i as int) && i + 11 < v.len(),
{
    let pat = chars_of("github.com/");
    proof {
        reveal_strlit("github.com/");
    }
    // `clear` is the least position from which no line feed follows.
    let mut clear: usize = v.len();
    while clear > 0 && v[clear - 1] != '\n'
        invariant
            clear <= v.len(),
            forall|j: int| clear <= j < v.len() ==> v@[j] != '\n',
        decreases clear,
    {
        clear -= 1;
    }
    let mut i: usize = 0;
    while i < v.len()
        invariant
            i <= v.len(),
            pat@ == host_marker(),
            pat@.len() == 11,
            clear <= v.len(),
            forall|j: int| clear <= j < v.len() ==> v@[j] != '\n',
            clear > 0 ==> v@[clear - 1] == '\n',
            forall|j: int| 0 <= j < i ==> !marker_hit(v@, j),
        decreases v.len() - i,
    {
        if matches_at(v, &pat, i) && i + 11 < v.len() && clear <= i + 11 {
            proof {
                assert(marker_hit(v@, i as int));
                lemma_first_marker_unique(v@, i as int);
            }
            return Some(i);
        }
        proof {
            if marker_hit(v@, i as int) {
                assert(clear > i + 11);
                assert(v@[clear - 1] == '\n');
            }
        }
        i += 1;
    }
    proof {
        if has_marker(v@) {
            let c = first_marker(v@);
            assert(marker_hit(v@, c));
        }
    }
    None
}

/// The bounds of the candidate identifier within `v`.
fn cleaned_range(v: &Vec<char>) -> (r: (usize, usize))
    ensures
        r.0 <= r.1 <= v.len(),
        v@.subrange(r.0 as int, r.1 as int) == cleaned(v@),
{
    let git = chars_of(".git");
    let git_slash = chars_of(".git/");
    proof {
        reveal_strlit(".git");
        reveal_strlit(".git/");
        assert(git_slash@ =~= git_suffix().push('/'));
    }
    let n = v.len();
    match find_marker(v) {
        Some(i) => {
            let start = i + 11;
            let ghost rest = v@.skip(start as int);
            proof {
                reveal_strlit("github.com/");
                lemma_first_marker_unique(v@, i as int);
                lemma_suffix_of_tail(v@, start as int, git_slash@);
                lemma_suffix_of_tail(v@, start as int, git@);
            }
            let end = if n - start > 5 && has_suffix(v, &git_slash) {
                n - 5
            } else if n - start > 4 && has_suffix(v, &git) {
                n - 4
            } else if n - start > 1 && v[n - 1] == '/' {
                n - 1
            } else {
                n
            };
            proof {
                assert(v@.subrange(start as int, end as int) =~= rest.take(end - start));
                assert(rest.take(rest.len() as int) =~= rest);
            }
            (start, end)
        },
        None => {
            let end = if n > 0 && v[n - 1] == '/' {
                n - 1
            } else {
                n
            };
            let ghost a = v@.take(end as int);
            proof {
                assert(a =~= if n > 0 && v@.last() == '/' {
                    v@.drop_last()
                } else {
                    v@
                });
                lemma_suffix_of_head(v@, end as int, git@);
            }
            let end2 = if end >= 4 && matches_at(v, &git, end - 4) {
                end - 4
            } else {
                end
            };
            proof {
                assert(v@.subrange(0, end2 as int) =~= a.take(end2 as int));
                assert(a.take(a.len() as int) =~= a);
            }
            (0, end2)
        },
    }
}

/// A suffix no longer than the tail from `start` is a suffix of the tail exactly when it
/// is one of the whole.
pub proof fn lemma_suffix_of_tail(s: Seq<char>, start: int, pat: Seq<char>)
    requires
        0 <= start <= s.len(),
    ensures
        pat.len() <= s.len() - start ==> (ends_with(s.skip(start), pat) <==> ends_with(s, pat)),
{
    if pat.len() <= s.len() - start {
        let t = s.skip(start);
        assert(t.subrange(t.len() - pat.len(), t.len() as int) =~= s.subrange(
            s.len() - pat.len(),
            s.len() as int,
        ));
    }
}

/// `pat` ends the first `end` characters exactly when it stands right before `end`.
pub proof fn lemma_suffix_of_head(s: Seq<char>, end: int, pat: Seq<char>)
    requires
        0 <= end <= s.len(),
    ensures
        ends_with(s.take(end), pat) <==> (pat.len() <= end && occurs_at(s, pat, end - pat.len())),
{
    if pat.len() <= end {
        let a = s.take(end);
        assert(a.subrange(a.len() - pat.len(), a.len() as int) =~= s.subrange(
            end - pat.len(),
            end,
        ));
    }
}

/// What a [`RepoIdentifier`] stands for: the two parts of `owner/name`.
pub struct RepoName {
    pub owner: Seq<char>,
    pub name: Seq<char>,
}

/// What a [`ValidationError`] stands for.
pub enum ValidationFault {
    InvalidRepoIdentifier(Seq<char>),
    InvalidLabel(Seq<char>),
}

/// A repository on the host, as `owner/name`: never an address, never with a trailing
/// slash or `.git`.
#[derive(Debug)]
pub struct RepoIdentifier {
    owner: String,
    name: String,
}

/// The name of a release folder or of a project prefix.
#[derive(Debug)]
pub struct ReleaseLabel {
    text: String,
}

/// An input that does not follow its grammar, with the offending value.
#[derive(Debug)]
pub enum ValidationError {
    /// The value, once stripped of the decorations of an address, is no `owner/name`.
    InvalidRepoIdentifier(String),
    /// The value is no release label.
    InvalidLabel(String),
}

impl View for ValidationError {
    type V = ValidationFault;

    open spec fn view(&self) -> ValidationFault {
        match self {
            ValidationError::InvalidRepoIdentifier(v) => ValidationFault::InvalidRepoIdentifier(
                v@,
            ),
            ValidationError::InvalidLabel(v) => ValidationFault::InvalidLabel(v@),
        }
    }
}

/// What a validation error tells the user: the offending value and what is wrong with it.
pub open spec fn validation_message(e: ValidationFault) -> Seq<char> {
    match e {
        ValidationFault::InvalidRepoIdentifier(v) => v + " is not a valid github repository name"@,
        ValidationFault::InvalidLabel(v) => "\""@ + v + "\" is not a valid release or prefix name"@,
    }
}

impl ValidationError {
    pub fn message(&self) -> (m: String)
        ensures
            m@ == validation_message(self@),
    {
        match self {
            ValidationError::InvalidRepoIdentifier(v) => {
                let mut m = v.clone();
                m.append(" is not a valid github repository name");
                m
            },
            ValidationError::InvalidLabel(v) => {
                let mut m = String::from_str("\"");
                m.append(v.as_str());
                m.append("\" is not a valid release or prefix name");
                m
            },
        }
    }
}

/// The text `owner/name` of a repository.
pub open spec fn repo_text(r: RepoName) -> Seq<char> {
    r.owner.push('/') + r.name
}

/// What normalisation makes of `raw`: the repository that the candidate in it names, or
/// the candidate as the offending value.
pub open spec fn normalized(raw: Seq<char>) -> Result<RepoName, ValidationFault> {
    let t = cleaned(raw);
    if valid_repo(t) {
        Ok(RepoName { owner: t.take(split_point(t)), name: t.skip(split_point(t) + 1) })
    } else {
        Err(ValidationFault::InvalidRepoIdentifier(t))
    }
}

/// What label validation makes of `raw`.
pub open spec fn checked_label(raw: Seq<char>) -> Result<Seq<char>, ValidationFault> {
    if valid_label(raw) {
        Ok(raw)
    } else {
        Err(ValidationFault::InvalidLabel(raw))
    }
}

impl View for RepoIdentifier {
    type V = RepoName;

    closed spec fn view(&self) -> RepoName {
        RepoName { owner: self.owner@, name: self.name@ }
    }
}

impl RepoIdentifier {
    #[verifier::type_invariant]
    spec fn well_formed(&self) -> bool {
        valid_owner(self.owner@) && valid_name(self.name@)
    }

    pub fn owner(&self) -> (s: &str)
        ensures
            s@ == self@.owner,
            valid_owner(s@),
    {
        proof {
            use_type_invariant(self);
        }
        self.owner.as_str()
    }

    pub fn name(&self) -> (s: &str)
        ensures
            s@ == self@.name,
            valid_name(s@),
    {
        proof {
            use_type_invariant(self);
        }
        self.name.as_str()
    }

    /// The identifier as `owner/name`.
    pub fn to_text(&self) -> (s: String)
        ensures
            s@ == repo_text(self@),
            valid_repo(s@),
    {
        let mut s = self.owner.clone();
        proof {
            reveal_strlit("/");
            use_type_invariant(self);
            lemma_joined_is_valid(self@.owner, self@.name);
        }
        s.append("/");
        s.append(self.name.as_str());
        assert(s@ =~= repo_text(self@));
        s
    }

}

impl Clone for RepoIdentifier {
    fn clone(&self) -> (r: RepoIdentifier)
        ensures
            r@ == self@,
    {
        proof {
            use_type_invariant(self);
        }
        RepoIdentifier { owner: self.owner.clone(), name: self.name.clone() }
    }
}

impl View for ReleaseLabel {
    type V = Seq<char>;

    closed spec fn view(&self) -> Seq<char> {
        self.text@
    }
}

impl ReleaseLabel {
    #[verifier::type_invariant]
    spec fn well_formed(&self) -> bool {
        valid_label(self.text@)
    }

    pub fn as_str(&self) -> (s: &str)
        ensures
            s@ == self@,
            valid_label(s@),
    {
        proof {
            use_type_invariant(self);
        }
        self.text.as_str()
    }

}

impl Clone for ReleaseLabel {
    fn clone(&self) -> (r: ReleaseLabel)
        ensures
            r@ == self@,
    {
        proof {
            use_type_invariant(self);
        }
        ReleaseLabel { text: self.text.clone() }
    }
}

/// An owner, a slash and a name make a string of the shape `owner/name`, split at the slash.
pub proof fn lemma_joined_is_valid(owner: Seq<char>, name: Seq<char>)
    requires
        valid_owner(owner),
        valid_name(name),
    ensures
        splits_at(owner.push('/') + name, owner.len() as int),
        valid_repo(owner.push('/') + name),
{
    let s = owner.push('/') + name;
    let k = owner.len() as int;
    assert(s.take(k) =~= owner);
    assert(s.skip(k + 1) =~= name);
    assert(s[k] == '/');
    assert(splits_at(s, k));
}

/// Reads a repository identifier out of `raw`, which may be `owner/name` or an address
/// that holds `github.com/owner/name`, with or without `.git` and a closing slash.
pub fn normalize_repo_identifier(raw: &str) -> (r: Result<RepoIdentifier, ValidationError>)
    ensures
        r matches Ok(id) ==> normalized(raw@) == Ok::<RepoName, ValidationFault>(id@),
        r matches Err(e) ==> normalized(raw@) == Err::<RepoName, ValidationFault>(e@),
{
    let v = chars_of(raw);
    let (from, to) = cleaned_range(&v);
    let candidate = raw.substring_char(from, to);
    let t = chars_of(candidate);
    match parse_repo(candidate, &t) {
        Some(k) => {
            let owner = String::from_str(candidate.substring_char(0, k));
            let name = String::from_str(candidate.substring_char(k + 1, t.len()));
            proof {
                lemma_split_is_first_slash(t@, k as int);
                assert(owner@ =~= t@.take(k as int));
                assert(name@ =~= t@.skip(k + 1));
            }
            Ok(RepoIdentifier { owner, name })
        },
        None => Err(ValidationError::InvalidRepoIdentifier(String::from_str(candidate))),
    }
}

/// Checks that `raw` can name a release folder or a project prefix.
pub fn validate_label(raw: &str) -> (r: Result<ReleaseLabel, ValidationError>)
    ensures
        r matches Ok(label) ==> checked_label(raw@) == Ok::<Seq<char>, ValidationFault>(label@),
        r matches Err(e) ==> checked_label(raw@) == Err::<Seq<char>, ValidationFault>(e@),
{
    let v = chars_of(raw);
    if v.len() == 0 || !word_at(raw, &v, 0) {
        return Err(ValidationError::InvalidLabel(String::from_str(raw)));
    }
    let mut i: usize = 0;
    while i < v.len()
        invariant
            i <= v.len(),
            v@ == raw@,
            forall|j: int| 0 <= j < i ==> is_name_char(#[trigger] v@[j]),
        decreases v.len() - i,
    {
        if !name_char_at(raw, &v, i) {
            assert(!is_name_char(raw@[i as int]));
            return Err(ValidationError::InvalidLabel(String::from_str(raw)));
        }
        i += 1;
    }
    Ok(ReleaseLabel { text: String::from_str(raw) })
}

} // verus!
