//! Path keys: canonical absolute slash-separated paths, and the forms in
//! which the remote service wants them.

use vstd::prelude::*;
use vstd::string::*;

verus! {

/// The separator between the segments of a path key.
pub const SEPARATOR: char = '/';

/// The path key of the root directory, `"/"`.
pub open spec fn root_path() -> Seq<char> {
    seq![SEPARATOR]
}

/// `s` without the separators it starts with.
pub open spec fn strip_leading(s: Seq<char>) -> Seq<char>
    decreases s.len(),
{
    if s.len() > 0 && s[0] == SEPARATOR {
        strip_leading(s.drop_first())
    } else {
        s
    }
}

/// `s` without the separators it ends with.
pub open spec fn strip_trailing(s: Seq<char>) -> Seq<char>
    decreases s.len(),
{
    if s.len() > 0 && s.last() == SEPARATOR {
        strip_trailing(s.drop_last())
    } else {
        s
    }
}

/// The path key of the entry `name` in the directory `parent`: the parent
/// without trailing separators, one separator, the name. For the root this is
/// `"/"` followed by the name.
pub open spec fn child_path(parent: Seq<char>, name: Seq<char>) -> Seq<char> {
    strip_trailing(parent) + seq![SEPARATOR] + name
}

/// The form in which the remote service is asked for `path`: relative, that
/// is without leading separators. The root becomes the empty string.
pub open spec fn remote_path(path: Seq<char>) -> Seq<char> {
    strip_leading(path)
}

/// The segment that comes between the base address and the path in a listing
/// request.
pub open spec fn list_segment() -> Seq<char> {
    seq!['/', 'l', 'i', 's', 't', '/']
}

/// The address of the listing of `path` on the service at `base_url`.
pub open spec fn request_url(base_url: Seq<char>, path: Seq<char>) -> Seq<char> {
    strip_trailing(base_url) + list_segment() + remote_path(path)
}

/// Skipping `i` leading separators leaves what `strip_leading` has to work on.
proof fn lemma_strip_leading_skip(s: Seq<char>, i: int)
    requires
        0 <= i <= s.len(),
        forall|j: int| 0 <= j < i ==> s[j] == SEPARATOR,
    ensures
        strip_leading(s) == strip_leading(s.skip(i)),
    decreases i,
{
    if i == 0 {
        assert(s.skip(0) =~= s);
    } else {
        lemma_strip_leading_skip(s, i - 1);
        let t = s.skip(i - 1);
        assert(t[0] == SEPARATOR);
        assert(t.drop_first() =~= s.skip(i));
    }
}

/// Dropping trailing separators down to length `n` leaves what
/// `strip_trailing` has to work on.
proof fn lemma_strip_trailing_take(s: Seq<char>, n: int)
    requires
        0 <= n <= s.len(),
        forall|j: int| n <= j < s.len() ==> s[j] == SEPARATOR,
    ensures
        strip_trailing(s) == strip_trailing(s.take(n)),
    decreases s.len() - n,
{
    if n == s.len() {
        assert(s.take(n) =~= s);
    } else {
        lemma_strip_trailing_take(s, n + 1);
        let t = s.take(n + 1);
        assert(t.last() == SEPARATOR);
        assert(t.drop_last() =~= s.take(n));
    }
}

/// What is left of a path after `strip_leading` is a suffix of it that does
/// not start with a separator, and only separators were taken away.
pub proof fn lemma_strip_leading_shape(s: Seq<char>)
    ensures
        strip_leading(s).len() <= s.len(),
        strip_leading(s) == s.skip(s.len() - strip_leading(s).len()),
        strip_leading(s).len() > 0 ==> strip_leading(s)[0] != SEPARATOR,
        forall|j: int| 0 <= j < s.len() - strip_leading(s).len() ==> s[j] == SEPARATOR,
    decreases s.len(),
{
    if s.len() > 0 && s[0] == SEPARATOR {
        let t = s.drop_first();
        lemma_strip_leading_shape(t);
        let k = t.len() - strip_leading(t).len();
        assert(t.skip(k) =~= s.skip(k + 1));
        assert forall|j: int| 0 <= j < s.len() - strip_leading(s).len() implies s[j]
            == SEPARATOR by {
            if j > 0 {
                assert(s[j] == t[j - 1]);
            }
        }
    } else {
        assert(s.skip(0) =~= s);
    }
}

/// What is left of a path after `strip_trailing` is a prefix of it that does
/// not end with a separator, and only separators were taken away.
pub proof fn lemma_strip_trailing_shape(s: Seq<char>)
    ensures
        strip_trailing(s).len() <= s.len(),
        strip_trailing(s) == s.take(strip_trailing(s).len() as int),
        strip_trailing(s).len() > 0 ==> strip_trailing(s).last() != SEPARATOR,
        forall|j: int| strip_trailing(s).len() <= j < s.len() ==> s[j] == SEPARATOR,
    decreases s.len(),
{
    if s.len() > 0 && s.last() == SEPARATOR {
        let t = s.drop_last();
        lemma_strip_trailing_shape(t);
        let k = strip_trailing(t).len() as int;
        assert(t.take(k) =~= s.take(k));
        assert forall|j: int| strip_trailing(s).len() <= j < s.len() implies s[j]
            == SEPARATOR by {
            if j < s.len() - 1 {
                assert(s[j] == t[j]);
            }
        }
    } else {
        assert(s.take(s.len() as int) =~= s);
    }
}

/// Under a directory whose path does not end with a separator, the child's
/// path is the directory's path, a separator and the name; under the root it
/// is a separator and the name.
pub proof fn lemma_child_path_plain(parent: Seq<char>, name: Seq<char>)
    ensures
        parent.len() == 0 || parent.last() != SEPARATOR ==> child_path(parent, name) == parent
            + seq![SEPARATOR] + name,
        child_path(root_path(), name) == seq![SEPARATOR] + name,
{
    assert(root_path().drop_last() =~= Seq::<char>::empty());
    assert(strip_trailing(root_path()) =~= Seq::<char>::empty()) by {
        reveal_with_fuel(strip_trailing, 2);
    }
    assert(child_path(root_path(), name) =~= seq![SEPARATOR] + name);
}

/// Returns `s` without its leading separators.
pub fn strip_leading_slashes<'a>(s: &'a str) -> (r: &'a str)
    ensures
        r@ == strip_leading(s@),
{
    let n: usize = s.unicode_len();
    let mut i: usize = 0;
    while i < n && s.get_char(i) == SEPARATOR
        invariant
            n == s@.len(),
            i <= n,
            forall|j: int| 0 <= j < i ==> s@[j] == SEPARATOR,
        decreases n - i,
    {
        i += 1;
    }
    proof {
        lemma_strip_leading_skip(s@, i as int);
        assert(s@.subrange(i as int, n as int) =~= s@.skip(i as int));
    }
    s.substring_char(i, n)
}

/// Returns `s` without its trailing separators.
pub fn strip_trailing_slashes<'a>(s: &'a str) -> (r: &'a str)
    ensures
        r@ == strip_trailing(s@),
{
    let len: usize = s.unicode_len();
    let mut n: usize = len;
    while n > 0 && s.get_char(n - 1) == SEPARATOR
        invariant
            len == s@.len(),
            n <= len,
            forall|j: int| n <= j < len ==> s@[j] == SEPARATOR,
        decreases n,
    {
        n -= 1;
    }
    proof {
        lemma_strip_trailing_take(s@, n as int);
        assert(s@.subrange(0, n as int) =~= s@.take(n as int));
    }
    s.substring_char(0, n)
}

/// Builds the path key of the entry `name` in the directory `parent`.
pub fn join_child(parent: &str, name: &str) -> (path: String)
    ensures
        path@ == child_path(parent@, name@),
{
    proof {
        reveal_strlit("/");
    }
    let mut path = String::from_str(strip_trailing_slashes(parent));
    path.append("/");
    path.append(name);
    assert("/"@ =~= seq![SEPARATOR]);
    path
}

/// Builds the form of `path` that the remote service is asked for.
pub fn to_remote_path(path: &str) -> (remote: String)
    ensures
        remote@ == remote_path(path@),
{
    String::from_str(strip_leading_slashes(path))
}

/// Builds the address that lists `path` on the service at `base_url`.
pub fn build_request_url(base_url: &str, path: &str) -> (url: String)
    ensures
        url@ == request_url(base_url@, path@),
{
    proof {
        reveal_strlit("/list/");
    }
    let mut url = String::from_str(strip_trailing_slashes(base_url));
    url.append("/list/");
    url.append(strip_leading_slashes(path));
    assert("/list/"@ =~= list_segment());
    url
}

/// The parent of a path as `std::path::Path::parent` gives it: the path
/// without its final component, or `None` where the path ends in a root or is
/// empty.
pub uninterp spec fn parent_of(path: Seq<char>) -> Option<Seq<char>>;

/// Returns the parent of `path`.
///
/// Calls `std::path::Path::parent` on the path and hands its result back as
/// text; the contract gives that result its name, `parent_of`, and claims no
/// more of it.
#[verifier::external_body]
pub(crate) fn path_parent(path: &str) -> (parent: Option<String>)
    ensures
        match parent {
            Some(p) => parent_of(path@) == Some(p@),
            None => parent_of(path@).is_none(),
        },
{
    match std::path::Path::new(path).parent() {
        Some(p) => p.to_str().map(String::from),
        None => None,
    }
}

} // verus!
