//! Rules shared by the repository commands: which e-mail addresses and names are
//! accepted, the repository name in a clone URL, the reference names and refspecs
//! pushed to `origin`, and which credential to offer a remote.
use crate::text::{chars_of, push_chars, push_str, split_chars, split_on, string_from_chars};
use vstd::prelude::*;

verus! {

// ------------------------------------------------------------------ e-mail

/// Characters an e-mail address may hold: ASCII letters and digits and `@ . - _ +`.
pub open spec fn email_char(c: char) -> bool {
    ||| 'a' <= c <= 'z'
    ||| 'A' <= c <= 'Z'
    ||| '0' <= c <= '9'
    ||| c == '@'
    ||| c == '.'
    ||| c == '-'
    ||| c == '_'
    ||| c == '+'
}

/// `s` holds `c` twice in a row.
pub open spec fn has_double(s: Seq<char>, c: char) -> bool {
    exists|i: int| 0 <= i && i + 1 < s.len() && s[i] == c && #[trigger] s[i + 1] == c
}

/// `p` is non-empty and neither starts nor ends with a dot.
pub open spec fn dot_trimmed(p: Seq<char>) -> bool {
    p.len() > 0 && p[0] != '.' && p.last() != '.'
}

/// The basic e-mail check: more than three characters, exactly one `@` that
/// neither starts nor ends the address, no `..` and no `@@`, a local part and a
/// domain that are non-empty and neither start nor end with a dot, a dot in the
/// domain, and only the characters `email_char` allows.
pub open spec fn valid_email(e: Seq<char>) -> bool {
    let parts = split_on(e, '@');
    &&& e.len() > 3
    &&& e.contains('@')
    &&& e[0] != '@'
    &&& e.last() != '@'
    &&& !has_double(e, '.')
    &&& !has_double(e, '@')
    &&& parts.len() == 2
    &&& dot_trimmed(parts[0])
    &&& dot_trimmed(parts[1])
    &&& parts[1].contains('.')
    &&& forall|i: int| 0 <= i < e.len() ==> email_char(#[trigger] e[i])
}

/// Whether `s` holds `c`.
fn contains_char(s: &[char], c: char) -> (r: bool)
    ensures
        r == s@.contains(c),
{
    let n = s.len();
    for i in 0..n
        invariant
            n == s@.len(),
            forall|j: int| 0 <= j < i ==> s@[j] != c,
    {
        if s[i] == c {
            assert(s@[i as int] == c);
            return true;
        }
    }
    false
}

/// Whether `s` holds `c` twice in a row.
fn contains_double(s: &[char], c: char) -> (r: bool)
    ensures
        r == has_double(s@, c),
{
    let n = s.len();
    if n < 2 {
        return false;
    }
    for i in 0..n - 1
        invariant
            n == s@.len(),
            n >= 2,
            forall|j: int| 0 <= j < i ==> !(s@[j] == c && #[trigger] s@[j + 1] == c),
    {
        if s[i] == c && s[i + 1] == c {
            return true;
        }
    }
    false
}

/// Whether `p` is non-empty and neither starts nor ends with a dot.
fn is_dot_trimmed(p: &[char]) -> (r: bool)
    ensures
        r == dot_trimmed(p@),
{
    p.len() > 0 && p[0] != '.' && p[p.len() - 1] != '.'
}

/// The basic validation applied to an e-mail address typed in at the prompt.
pub fn is_valid_email(email: &str) -> (r: bool)
    ensures
        r == valid_email(email@),
{
    let e = chars_of(email);
    let n = e.len();
    if n <= 3 || !contains_char(e.as_slice(), '@') || e[0] == '@' || e[n - 1] == '@' {
        return false;
    }
    if contains_double(e.as_slice(), '.') || contains_double(e.as_slice(), '@') {
        return false;
    }
    let parts = split_chars(e.as_slice(), '@');
    if parts.len() != 2 {
        return false;
    }
    let ghost ps = split_on(e@, '@');
    assert(parts@[0]@ == ps[0] && parts@[1]@ == ps[1]);
    if !is_dot_trimmed(parts[0].as_slice()) {
        return false;
    }
    if !is_dot_trimmed(parts[1].as_slice()) || !contains_char(parts[1].as_slice(), '.') {
        return false;
    }
    for i in 0..n
        invariant
            n == e@.len(),
            e@ == email@,
            forall|j: int| 0 <= j < i ==> email_char(#[trigger] e@[j]),
    {
        let c = e[i];
        let ok = ('a' <= c && c <= 'z') || ('A' <= c && c <= 'Z') || ('0' <= c && c <= '9') || c
            == '@' || c == '.' || c == '-' || c == '_' || c == '+';
        if !ok {
            assert(!email_char(e@[i as int]));
            return false;
        }
    }
    true
}

/// What is wrong with a name typed in at the prompt (already trimmed).
#[derive(Debug, Clone, Copy, PartialEq, Eq, Structural)]
pub enum NameInputError {
    /// Nothing was typed.
    Empty,
    /// Fewer than two bytes were typed: not a full name.
    TooShort,
}

/// What is wrong with an e-mail address typed in at the prompt (already trimmed).
#[derive(Debug, Clone, Copy, PartialEq, Eq, Structural)]
pub enum EmailInputError {
    /// Nothing was typed.
    Empty,
    /// The address fails the basic e-mail check.
    Invalid,
}

/// Accepts a typed-in name of at least two bytes.
pub fn check_name_input(name: &str) -> (r: Result<(), NameInputError>)
    ensures
        name@.len() == 0 ==> r == Err::<(), NameInputError>(NameInputError::Empty),
        name@.len() != 0 && name.len() < 2 ==> r == Err::<(), NameInputError>(
            NameInputError::TooShort,
        ),
        name@.len() != 0 && name.len() >= 2 ==> r is Ok,
{
    if name.is_empty() {
        Err(NameInputError::Empty)
    } else if name.len() < 2 {
        Err(NameInputError::TooShort)
    } else {
        Ok(())
    }
}

/// Accepts a typed-in e-mail address that passes the basic e-mail check.
pub fn check_email_input(email: &str) -> (r: Result<(), EmailInputError>)
    ensures
        email@.len() == 0 ==> r == Err::<(), EmailInputError>(EmailInputError::Empty),
        email@.len() != 0 && !valid_email(email@) ==> r == Err::<(), EmailInputError>(
            EmailInputError::Invalid,
        ),
        email@.len() != 0 && valid_email(email@) ==> r is Ok,
{
    if email.is_empty() {
        Err(EmailInputError::Empty)
    } else if !is_valid_email(email) {
        Err(EmailInputError::Invalid)
    } else {
        Ok(())
    }
}

// --------------------------------------------------------- repository name

/// `s` without any run of `c` at its end.
pub open spec fn trim_end_char(s: Seq<char>, c: char) -> Seq<char>
    decreases s.len(),
{
    if s.len() > 0 && s.last() == c {
        trim_end_char(s.drop_last(), c)
    } else {
        s
    }
}

/// `s` without one `.git` at its end, if it has one.
pub open spec fn strip_git_suffix(s: Seq<char>) -> Seq<char> {
    if s.len() >= 4 && s.subrange(s.len() - 4, s.len() as int) == seq!['.', 'g', 'i', 't'] {
        s.subrange(0, s.len() - 4)
    } else {
        s
    }
}

/// A character that separates the parts of a repository URL: `/` or `:`.
pub open spec fn url_separator(c: char) -> bool {
    c == '/' || c == ':'
}

/// What follows the last `/` or `:` of `s` (all of `s` when it has neither).
pub open spec fn last_segment(s: Seq<char>) -> Seq<char>
    decreases s.len(),
{
    if s.len() == 0 || url_separator(s.last()) {
        Seq::empty()
    } else {
        last_segment(s.drop_last()).push(s.last())
    }
}

/// A URL without its trailing slashes and then without a `.git` ending.
pub open spec fn url_base(url: Seq<char>) -> Seq<char> {
    strip_git_suffix(trim_end_char(url, '/'))
}

/// The repository name in a URL: the last part of its base.
pub open spec fn repo_name(url: Seq<char>) -> Seq<char> {
    last_segment(url_base(url))
}

/// The part after the last separator holds no separator and ends the text.
proof fn lemma_last_segment(s: Seq<char>)
    ensures
        forall|i: int| 0 <= i < last_segment(s).len() ==> !url_separator(#[trigger] last_segment(s)[i]),
        last_segment(s).len() <= s.len(),
        last_segment(s) == s.subrange(s.len() - last_segment(s).len(), s.len() as int),
    decreases s.len(),
{
    if s.len() > 0 && !url_separator(s.last()) {
        lemma_last_segment(s.drop_last());
        let p = last_segment(s.drop_last());
        assert forall|i: int| 0 <= i < p.push(s.last()).len() implies !url_separator(
            #[trigger] p.push(s.last())[i],
        ) by {
            if i < p.len() {
                assert(p.push(s.last())[i] == p[i]);
            }
        }
        assert(p.push(s.last()) =~= s.subrange(s.len() - p.len() - 1, s.len() as int));
    } else {
        assert(last_segment(s) =~= s.subrange(s.len() as int, s.len() as int));
    }
}

/// The repository name is the last part of the URL's base: it ends the base and
/// holds neither `/` nor `:`.
pub proof fn lemma_repo_name_is_last_part(url: Seq<char>)
    ensures
        forall|i: int| 0 <= i < repo_name(url).len() ==> !url_separator(#[trigger] repo_name(url)[i]),
        url_base(url).len() >= repo_name(url).len(),
        repo_name(url) == url_base(url).subrange(
            url_base(url).len() - repo_name(url).len(),
            url_base(url).len() as int,
        ),
        repo_name(url).len() < url_base(url).len() ==> url_separator(
            url_base(url)[url_base(url).len() - repo_name(url).len() - 1],
        ),
{
    lemma_last_segment(url_base(url));
    lemma_last_segment_stops(url_base(url));
}

/// Where the last part is shorter than the text, a separator stands just before it.
proof fn lemma_last_segment_stops(s: Seq<char>)
    ensures
        last_segment(s).len() < s.len() ==> url_separator(s[s.len() - last_segment(s).len() - 1]),
    decreases s.len(),
{
    if s.len() > 0 && !url_separator(s.last()) {
        lemma_last_segment_stops(s.drop_last());
        let p = last_segment(s.drop_last());
        if p.len() + 1 < s.len() {
            assert(s.drop_last()[s.drop_last().len() - p.len() - 1] == s[s.len() - p.len() - 2]);
        }
    } else if s.len() > 0 {
        assert(s.last() == s[s.len() - 1]);
    }
}

/// What follows a `/` and holds no `/` or `:` is the last part in full.
proof fn lemma_last_segment_after_slash(p: Seq<char>, n: Seq<char>)
    requires
        forall|i: int| 0 <= i < n.len() ==> #[trigger] n[i] != '/' && n[i] != ':',
    ensures
        last_segment(p.push('/') + n) == n,
    decreases n.len(),
{
    let s = p.push('/') + n;
    if n.len() == 0 {
        assert(s =~= p.push('/'));
        assert(s.last() == '/');
    } else {
        let n0 = n.drop_last();
        lemma_last_segment_after_slash(p, n0);
        assert(s.drop_last() =~= p.push('/') + n0);
        assert(s.last() == n.last());
        assert(n.last() == n[n.len() - 1]);
        assert(n0.push(n.last()) =~= n);
    }
}

/// The repository name is the whole text after the last `/` or `:`: for any
/// beginning `p` and any non-empty name `n` that holds neither `/` nor `:` and does
/// not end in `.git`, the name taken from `p/n` is exactly `n`, every other
/// character of `n` (such as `-` or `.`) kept.
pub proof fn lemma_repo_name_after_slash(p: Seq<char>, n: Seq<char>)
    requires
        n.len() > 0,
        forall|i: int| 0 <= i < n.len() ==> #[trigger] n[i] != '/' && n[i] != ':',
        !(n.len() >= 4 && n.subrange(n.len() - 4, n.len() as int) == seq!['.', 'g', 'i', 't']),
    ensures
        repo_name(p.push('/') + n) == n,
{
    let s = p.push('/') + n;
    assert(s.last() == n[n.len() - 1]);
    assert(trim_end_char(s, '/') == s);
    if s.len() >= 4 && s.subrange(s.len() - 4, s.len() as int) == seq!['.', 'g', 'i', 't'] {
        if n.len() >= 4 {
            assert(n.subrange(n.len() - 4, n.len() as int) =~= s.subrange(
                s.len() - 4,
                s.len() as int,
            ));
        } else {
            let j = s.len() - n.len() - 1;
            assert(s[j] == '/');
            assert(s.subrange(s.len() - 4, s.len() as int)[j - (s.len() - 4)] == '/');
        }
    }
    assert(url_base(s) == s);
    lemma_last_segment_after_slash(p, n);
}

/// A clone URL from which no repository name can be taken.
#[derive(Debug, Clone, PartialEq, Eq)]
pub enum RepoNameError {
    /// The name would be empty; carries the URL without trailing slashes and `.git`.
    InvalidUrl(String),
}

/// The repository name in a clone URL: `https://host/user/repo.git`,
/// `git@host:user/repo.git` and `https://host/user/repo` all give `repo`.
pub fn extract_repo_name(url: &str) -> (r: Result<String, RepoNameError>)
    ensures
        r is Ok <==> repo_name(url@).len() > 0,
        r matches Ok(name) ==> name@ == repo_name(url@),
        r matches Err(RepoNameError::InvalidUrl(u)) ==> u@ == url_base(url@),
{
    let s = chars_of(url);
    // trailing slashes
    let mut end: usize = s.len();
    assert(s@.take(end as int) == s@);
    while end > 0 && s[end - 1] == '/'
        invariant
            end <= s@.len(),
            trim_end_char(s@.take(end as int), '/') == trim_end_char(s@, '/'),
        decreases end,
    {
        assert(s@.take(end as int).drop_last() == s@.take(end - 1));
        end = end - 1;
    }
    let ghost trimmed = s@.take(end as int);
    assert(trimmed == trim_end_char(s@, '/'));
    // `.git` ending
    if end >= 4 && s[end - 4] == '.' && s[end - 3] == 'g' && s[end - 2] == 'i' && s[end - 1]
        == 't' {
        assert(trimmed.subrange(end - 4, end as int) =~= seq!['.', 'g', 'i', 't']);
        assert(trimmed.subrange(0, end - 4) =~= s@.take(end - 4));
        end = end - 4;
    } else {
        assert(end >= 4 ==> trimmed.subrange(end - 4, end as int)[0] == s@[end - 4]);
        assert(end >= 4 ==> trimmed.subrange(end - 4, end as int)[1] == s@[end - 3]);
        assert(end >= 4 ==> trimmed.subrange(end - 4, end as int)[2] == s@[end - 2]);
        assert(end >= 4 ==> trimmed.subrange(end - 4, end as int)[3] == s@[end - 1]);
    }
    let ghost base = s@.take(end as int);
    assert(base == url_base(url@));
    // last part
    let mut start: usize = end;
    while start > 0 && s[start - 1] != '/' && s[start - 1] != ':'
        invariant
            start <= end <= s@.len(),
            base == s@.take(end as int),
            forall|j: int| start <= j < end ==> !url_separator(#[trigger] s@[j]),
            last_segment(base) == last_segment(s@.take(start as int)) + s@.subrange(
                start as int,
                end as int,
            ),
        decreases start,
    {
        let ghost t = s@.take(start as int);
        assert(t.drop_last() == s@.take(start - 1));
        assert(t.last() == s@[start - 1]);
        assert(s@.subrange(start - 1, end as int) =~= seq![s@[start - 1]] + s@.subrange(
            start as int,
            end as int,
        ));
        assert(last_segment(t) == last_segment(s@.take(start - 1)).push(s@[start - 1]));
        assert(last_segment(s@.take(start - 1)).push(s@[start - 1]) + s@.subrange(
            start as int,
            end as int,
        ) =~= last_segment(s@.take(start - 1)) + s@.subrange(start - 1, end as int));
        start = start - 1;
    }
    assert(last_segment(s@.take(start as int)) =~= Seq::<char>::empty()) by {
        if start > 0 {
            assert(s@.take(start as int).last() == s@[start - 1]);
        }
    }
    assert(last_segment(base) =~= s@.subrange(start as int, end as int));
    if start == end {
        let b = slice_prefix(s.as_slice(), end);
        return Err(RepoNameError::InvalidUrl(string_from_chars(b)));
    }
    let name = slice_range(s.as_slice(), start, end);
    Ok(string_from_chars(name))
}

/// The first `n` elements of `s`.
fn slice_prefix(s: &[char], n: usize) -> (r: &[char])
    requires
        n <= s@.len(),
    ensures
        r@ == s@.take(n as int),
{
    let (a, _) = s.split_at(n);
    a
}

/// The elements of `s` from `i` up to (not including) `j`.
fn slice_range(s: &[char], i: usize, j: usize) -> (r: &[char])
    requires
        i <= j <= s@.len(),
    ensures
        r@ == s@.subrange(i as int, j as int),
{
    let (a, _) = s.split_at(j);
    let (_, b) = a.split_at(i);
    assert(b@ =~= s@.subrange(i as int, j as int));
    b
}

// ------------------------------------------------- reference names, refspecs

/// `refs/heads/<branch>`, the local reference of a branch.
pub open spec fn branch_ref(branch: Seq<char>) -> Seq<char> {
    seq!['r', 'e', 'f', 's', '/', 'h', 'e', 'a', 'd', 's', '/'] + branch
}

/// `refs/tags/<tag>`, the reference of a tag.
pub open spec fn tag_ref(tag: Seq<char>) -> Seq<char> {
    seq!['r', 'e', 'f', 's', '/', 't', 'a', 'g', 's', '/'] + tag
}

/// `origin/<branch>`, the remote-tracking branch of a branch.
pub open spec fn origin_branch(branch: Seq<char>) -> Seq<char> {
    seq!['o', 'r', 'i', 'g', 'i', 'n', '/'] + branch
}

/// `Release <tag>`, the message of a release tag.
pub open spec fn release_message(tag: Seq<char>) -> Seq<char> {
    seq!['R', 'e', 'l', 'e', 'a', 's', 'e', ' '] + tag
}

/// `refs/heads/<branch>`, the local reference of a branch.
pub fn branch_ref_name(branch: &str) -> (r: String)
    ensures
        r@ == branch_ref(branch@),
{
    let mut r = String::new();
    push_chars(&mut r, &['r', 'e', 'f', 's', '/', 'h', 'e', 'a', 'd', 's', '/']);
    push_str(&mut r, branch);
    r
}

/// `refs/tags/<tag>`, the reference of a tag.
pub fn tag_ref_name(tag: &str) -> (r: String)
    ensures
        r@ == tag_ref(tag@),
{
    let mut r = String::new();
    push_chars(&mut r, &['r', 'e', 'f', 's', '/', 't', 'a', 'g', 's', '/']);
    push_str(&mut r, tag);
    r
}

/// `origin/<branch>`, the remote-tracking branch that pull and wipe look up.
pub fn origin_branch_name(branch: &str) -> (r: String)
    ensures
        r@ == origin_branch(branch@),
{
    let mut r = String::new();
    push_chars(&mut r, &['o', 'r', 'i', 'g', 'i', 'n', '/']);
    push_str(&mut r, branch);
    r
}

/// The refspec that pushes a branch to the branch of the same name on `origin`.
pub fn branch_refspec(branch: &str) -> (r: String)
    ensures
        r@ == branch_ref(branch@) + seq![':'] + branch_ref(branch@),
{
    let mut r = branch_ref_name(branch);
    push_chars(&mut r, &[':']);
    let tail = branch_ref_name(branch);
    push_str(&mut r, tail.as_str());
    r
}

/// The refspec that pushes a tag to the tag of the same name on `origin`.
pub fn tag_refspec(tag: &str) -> (r: String)
    ensures
        r@ == tag_ref(tag@) + seq![':'] + tag_ref(tag@),
{
    let mut r = tag_ref_name(tag);
    push_chars(&mut r, &[':']);
    let tail = tag_ref_name(tag);
    push_str(&mut r, tail.as_str());
    r
}

/// The message of the release tag `tag`: `Release <tag>`.
pub fn release_tag_message(tag: &str) -> (r: String)
    ensures
        r@ == release_message(tag@),
{
    let mut r = String::new();
    push_chars(&mut r, &['R', 'e', 'l', 'e', 'a', 's', 'e', ' ']);
    push_str(&mut r, tag);
    r
}

// ------------------------------------------------------------- credentials

/// The credential offered to a remote that asks for one.
#[derive(Debug, Clone, Copy, PartialEq, Eq, Structural)]
pub enum CredentialChoice {
    /// What the configured credential helper supplied.
    Helper,
    /// A key from the SSH agent, for the user name in the URL.
    SshAgent,
    /// The default credential.
    Default,
}

/// Which credential to offer: the credential helper's when plain-text user and
/// password are allowed and the helper supplied one; else an SSH-agent key when SSH
/// keys are allowed and the URL names a user; else the default credential.
pub fn choose_credential(
    plaintext_allowed: bool,
    helper_supplied: bool,
    ssh_key_allowed: bool,
    url_has_user: bool,
) -> (r: CredentialChoice)
    ensures
        r == (if plaintext_allowed && helper_supplied {
            CredentialChoice::Helper
        } else if ssh_key_allowed && url_has_user {
            CredentialChoice::SshAgent
        } else {
            CredentialChoice::Default
        }),
{
    if plaintext_allowed && helper_supplied {
        CredentialChoice::Helper
    } else if ssh_key_allowed && url_has_user {
        CredentialChoice::SshAgent
    } else {
        CredentialChoice::Default
    }
}

} // verus!
