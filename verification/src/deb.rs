//! Package descriptor extraction: parsing a Debian control text and
//! normalizing its dependency field.
//!
//! Unpacking the archive itself is host work done outside the crate; the
//! captured control text arrives here as a string.

use vstd::prelude::*;
use crate::error::AppError;
use crate::text::{chars_of, copy_range, push_char, string_of, views_of};

verus! {

/// The whitespace characters that token trimming removes.
pub open spec fn is_space(c: char) -> bool {
    c == ' ' || c == '\t' || c == '\r' || c == '\n'
}

/// Splits `s` at every occurrence of `sep`; `cur` is the piece read so
/// far. Splitting never loses characters: adjacent separators yield empty
/// pieces.
pub open spec fn split_acc(s: Seq<char>, sep: char, cur: Seq<char>) -> Seq<Seq<char>>
    decreases s.len(),
{
    if s.len() == 0 {
        seq![cur]
    } else if s[0] == sep {
        seq![cur] + split_acc(s.drop_first(), sep, Seq::empty())
    } else {
        split_acc(s.drop_first(), sep, cur.push(s[0]))
    }
}

/// The pieces of `s` between occurrences of `sep`.
pub open spec fn spec_split(s: Seq<char>, sep: char) -> Seq<Seq<char>> {
    split_acc(s, sep, Seq::empty())
}

/// The prefix of `s` before the first occurrence of `stop`, or all of
/// `s` when `stop` does not occur.
pub open spec fn take_until(s: Seq<char>, stop: char) -> Seq<char>
    decreases s.len(),
{
    if s.len() == 0 {
        s
    } else if s[0] == stop {
        Seq::empty()
    } else {
        seq![s[0]] + take_until(s.drop_first(), stop)
    }
}

/// `s` without its leading whitespace.
pub open spec fn trim_front(s: Seq<char>) -> Seq<char>
    decreases s.len(),
{
    if s.len() > 0 && is_space(s[0]) {
        trim_front(s.drop_first())
    } else {
        s
    }
}

/// `s` without its trailing whitespace.
pub open spec fn trim_back(s: Seq<char>) -> Seq<char>
    decreases s.len(),
{
    if s.len() > 0 && is_space(s.last()) {
        trim_back(s.drop_last())
    } else {
        s
    }
}

/// `s` without leading and trailing whitespace.
pub open spec fn spec_trim(s: Seq<char>) -> Seq<char> {
    trim_back(trim_front(s))
}

/// One raw dependency token reduced to a bare package name: everything
/// from the first alternative marker `|` on is dropped, then everything
/// from the first version-constraint opener `(` on, then surrounding
/// whitespace.
pub open spec fn normalize_token(t: Seq<char>) -> Seq<char> {
    spec_trim(take_until(take_until(t, '|'), '('))
}

/// Normalizes every token and drops the ones that come out empty.
pub open spec fn normalize_tokens(toks: Seq<Seq<char>>) -> Seq<Seq<char>>
    decreases toks.len(),
{
    if toks.len() == 0 {
        Seq::empty()
    } else {
        let pre = normalize_tokens(toks.drop_last());
        let t = normalize_token(toks.last());
        if t.len() == 0 {
            pre
        } else {
            pre.push(t)
        }
    }
}

/// A raw `Depends` field as a list of bare package names: split on `,`,
/// each token stripped of alternatives, version constraints and
/// whitespace, empty entries excluded.
pub open spec fn spec_parse_deps(s: Seq<char>) -> Seq<Seq<char>> {
    normalize_tokens(spec_split(s, ','))
}

/// The entries joined by single spaces.
pub open spec fn join_space(l: Seq<Seq<char>>) -> Seq<char>
    decreases l.len(),
{
    if l.len() == 0 {
        Seq::empty()
    } else if l.len() == 1 {
        l[0]
    } else {
        join_space(l.drop_last()) + " "@ + l.last()
    }
}

/// The value of `line` when it is a `key: value` line, with the value
/// running to the end of the line.
pub open spec fn line_value(line: Seq<char>, key: Seq<char>) -> Option<Seq<char>> {
    let k = key.len() as int;
    if line.len() >= k + 2 && line.subrange(0, k) == key && line[k] == ':' && line[k + 1] == ' ' {
        Some(line.subrange(k + 2, line.len() as int))
    } else {
        None
    }
}

/// The value of the first `key: value` line among `lines`, if any.
pub open spec fn find_field(lines: Seq<Seq<char>>, key: Seq<char>) -> Option<Seq<char>>
    decreases lines.len(),
{
    if lines.len() == 0 {
        None
    } else {
        match line_value(lines[0], key) {
            Some(v) => Some(v),
            None => find_field(lines.drop_first(), key),
        }
    }
}

/// The value of `key` in a whole control text: its lines are the pieces
/// between newlines.
pub open spec fn spec_field(control: Seq<char>, key: Seq<char>) -> Option<Seq<char>> {
    find_field(spec_split(control, '\n'), key)
}

/// A first `key: value` match at index `i` pins [`find_field`] to its
/// value.
proof fn lemma_find_field_complete(lines: Seq<Seq<char>>, key: Seq<char>, i: int)
    requires
        0 <= i < lines.len(),
        line_value(lines[i], key) is Some,
        forall|j: int| 0 <= j < i ==> line_value(lines[j], key) is None,
    ensures
        find_field(lines, key) == line_value(lines[i], key),
    decreases lines.len(),
{
    if i > 0 {
        let rest = lines.drop_first();
        assert(forall|j: int| 0 <= j < i - 1 ==> rest[j] == lines[j + 1]);
        lemma_find_field_complete(rest, key, i - 1);
    }
}

/// When no line matches, [`find_field`] finds nothing.
proof fn lemma_find_field_none(lines: Seq<Seq<char>>, key: Seq<char>)
    requires
        forall|j: int| 0 <= j < lines.len() ==> line_value(lines[j], key) is None,
    ensures
        find_field(lines, key) is None,
    decreases lines.len(),
{
    if lines.len() > 0 {
        let rest = lines.drop_first();
        assert(forall|j: int| 0 <= j < rest.len() ==> rest[j] == lines[j + 1]);
        lemma_find_field_none(rest, key);
    }
}

/// Splits a character vector at every occurrence of `sep`.
pub fn split_chars(v: &Vec<char>, sep: char) -> (r: Vec<Vec<char>>)
    ensures
        views_of(r@) == spec_split(v@, sep),
{
    let mut out: Vec<Vec<char>> = Vec::new();
    let mut cur: Vec<char> = Vec::new();
    let mut i: usize = 0;
    proof {
        assert(v@.subrange(0, v@.len() as int) =~= v@);
        assert(views_of(out@) + split_acc(v@, sep, cur@) =~= split_acc(v@, sep, cur@));
    }
    while i < v.len()
        invariant
            i <= v@.len(),
            spec_split(v@, sep) == views_of(out@) + split_acc(
                v@.subrange(i as int, v@.len() as int),
                sep,
                cur@,
            ),
        decreases v@.len() - i,
    {
        let ghost n = v@.len() as int;
        let ghost rest_before = v@.subrange(i as int, n);
        let ghost rest_after = v@.subrange(i as int + 1, n);
        proof {
            assert(rest_before.drop_first() =~= rest_after);
            assert(rest_before[0] == v@[i as int]);
        }
        let c = v[i];
        if c == sep {
            let ghost old_out = views_of(out@);
            let ghost old_cur = cur@;
            out.push(cur);
            cur = Vec::new();
            proof {
                assert(views_of(out@) =~= old_out.push(old_cur));
                assert(split_acc(rest_before, sep, old_cur) == seq![old_cur] + split_acc(
                    rest_after,
                    sep,
                    Seq::empty(),
                ));
                assert(old_out + (seq![old_cur] + split_acc(rest_after, sep, Seq::empty()))
                    =~= views_of(out@) + split_acc(rest_after, sep, Seq::empty()));
            }
        } else {
            cur.push(c);
        }
        i = i + 1;
    }
    proof {
        assert(v@.subrange(i as int, v@.len() as int).len() == 0);
        assert(split_acc(v@.subrange(i as int, v@.len() as int), sep, cur@) == seq![cur@]);
    }
    let ghost old_out = views_of(out@);
    let ghost old_cur = cur@;
    out.push(cur);
    proof {
        assert(views_of(out@) =~= old_out.push(old_cur));
        assert(old_out + seq![old_cur] =~= old_out.push(old_cur));
    }
    out
}

/// The prefix of `v` before the first occurrence of `stop`.
pub fn take_until_chars(v: &Vec<char>, stop: char) -> (r: Vec<char>)
    ensures
        r@ == take_until(v@, stop),
{
    let mut i: usize = 0;
    while i < v.len()
        invariant
            i <= v@.len(),
            forall|j: int| 0 <= j < i ==> v@[j] != stop,
        decreases v@.len() - i,
    {
        if v[i] == stop {
            proof {
                lemma_take_until_prefix(v@, stop, i as int);
            }
            return copy_range(v, 0, i);
        }
        i = i + 1;
    }
    proof {
        lemma_take_until_prefix(v@, stop, v@.len() as int);
    }
    copy_range(v, 0, v.len())
}

/// Scanning to the first `stop` (or the end) is what [`take_until`]
/// means.
proof fn lemma_take_until_prefix(s: Seq<char>, stop: char, k: int)
    requires
        0 <= k <= s.len(),
        forall|j: int| 0 <= j < k ==> s[j] != stop,
        k < s.len() ==> s[k] == stop,
    ensures
        take_until(s, stop) == s.subrange(0, k),
    decreases k,
{
    if k == 0 {
        if s.len() > 0 {
            assert(s[0] == stop);
        }
        assert(take_until(s, stop) =~= s.subrange(0, 0));
    } else {
        let rest = s.drop_first();
        assert(forall|j: int| 0 <= j < k - 1 ==> rest[j] == s[j + 1]);
        lemma_take_until_prefix(rest, stop, k - 1);
        assert(take_until(s, stop) == seq![s[0]] + rest.subrange(0, k - 1));
        assert(seq![s[0]] + rest.subrange(0, k - 1) =~= s.subrange(0, k));
    }
}

/// Dropping `a` leading spaces is what [`trim_front`] means.
proof fn lemma_trim_front_at(s: Seq<char>, a: int)
    requires
        0 <= a <= s.len(),
        forall|j: int| 0 <= j < a ==> is_space(s[j]),
        a < s.len() ==> !is_space(s[a]),
    ensures
        trim_front(s) == s.subrange(a, s.len() as int),
    decreases a,
{
    if a == 0 {
        assert(trim_front(s) =~= s.subrange(0, s.len() as int));
    } else {
        let rest = s.drop_first();
        assert(forall|j: int| 0 <= j < a - 1 ==> rest[j] == s[j + 1]);
        lemma_trim_front_at(rest, a - 1);
        assert(rest.subrange(a - 1, rest.len() as int) =~= s.subrange(a, s.len() as int));
    }
}

/// Dropping the spaces from `b` on is what [`trim_back`] means.
proof fn lemma_trim_back_at(s: Seq<char>, b: int)
    requires
        0 <= b <= s.len(),
        forall|j: int| b <= j < s.len() ==> is_space(s[j]),
        b > 0 ==> !is_space(s[b - 1]),
    ensures
        trim_back(s) == s.subrange(0, b),
    decreases s.len(),
{
    if b == s.len() {
        assert(trim_back(s) =~= s.subrange(0, b));
    } else {
        assert(is_space(s.last()));
        let rest = s.drop_last();
        lemma_trim_back_at(rest, b);
        assert(rest.subrange(0, b) =~= s.subrange(0, b));
    }
}

/// `v` without leading and trailing whitespace.
pub fn trim_chars(v: &Vec<char>) -> (r: Vec<char>)
    ensures
        r@ == spec_trim(v@),
{
    let n = v.len();
    let mut a: usize = 0;
    while a < n && is_space_exec(v[a])
        invariant
            a <= n,
            n == v@.len(),
            forall|j: int| 0 <= j < a ==> is_space(v@[j]),
        decreases n - a,
    {
        a = a + 1;
    }
    proof {
        lemma_trim_front_at(v@, a as int);
    }
    if a == n {
        proof {
            assert(trim_back(v@.subrange(a as int, n as int)) =~= v@.subrange(a as int, n as int));
        }
        return Vec::new();
    }
    let mut b: usize = n;
    while b > a && is_space_exec(v[b - 1])
        invariant
            a <= b <= n,
            n == v@.len(),
            forall|j: int| b <= j < n ==> is_space(v@[j]),
            !is_space(v@[a as int]),
        decreases b,
    {
        b = b - 1;
    }
    proof {
        let t = v@.subrange(a as int, n as int);
        assert(forall|j: int| b - a <= j < t.len() ==> t[j] == v@[j + a]);
        assert(b > a);
        assert(t[b - a - 1] == v@[b as int - 1]);
        lemma_trim_back_at(t, b as int - a as int);
        assert(t.subrange(0, b as int - a as int) =~= v@.subrange(a as int, b as int));
    }
    copy_range(v, a, b)
}

/// Whether `c` is one of the whitespace characters trimming removes.
pub fn is_space_exec(c: char) -> (r: bool)
    ensures
        r == is_space(c),
{
    c == ' ' || c == '\t' || c == '\r' || c == '\n'
}

/// An ordered list of bare dependency package names, as the `Depends`
/// field of a control text yields them.
pub struct Dependencies {
    list: Vec<String>,
}

impl View for Dependencies {
    type V = Seq<Seq<char>>;

    closed spec fn view(&self) -> Seq<Seq<char>> {
        self.list.deep_view()
    }
}

impl Dependencies {
    /// Normalizes a raw `Depends` field: tokens split on `,`, each kept
    /// up to its first `|` alternative and `(` version constraint, then
    /// trimmed; entries that come out empty are excluded.
    pub fn new(deps: &str) -> (r: Self)
        ensures
            r@ == spec_parse_deps(deps@),
    {
        let chars = chars_of(deps);
        let toks = split_chars(&chars, ',');
        let mut list: Vec<String> = Vec::new();
        let mut k: usize = 0;
        proof {
            assert(list.deep_view() =~= normalize_tokens(views_of(toks@).subrange(0, 0)));
        }
        while k < toks.len()
            invariant
                k <= toks@.len(),
                views_of(toks@) == spec_split(deps@, ','),
                list.deep_view() == normalize_tokens(views_of(toks@).subrange(0, k as int)),
            decreases toks@.len() - k,
        {
            let ghost prefix_before = views_of(toks@).subrange(0, k as int);
            let ghost prefix_after = views_of(toks@).subrange(0, k as int + 1);
            let cut = take_until_chars(&toks[k], '|');
            let cut = take_until_chars(&cut, '(');
            let trimmed = trim_chars(&cut);
            proof {
                assert(prefix_after.drop_last() =~= prefix_before);
                assert(prefix_after.last() == views_of(toks@)[k as int]);
                assert(trimmed@ == normalize_token(views_of(toks@)[k as int]));
            }
            if trimmed.len() > 0 {
                let ghost old_list = list.deep_view();
                list.push(string_of(&trimmed));
                proof {
                    assert(list.deep_view() =~= old_list.push(trimmed@));
                }
            }
            k = k + 1;
        }
        proof {
            assert(views_of(toks@).subrange(0, k as int) =~= views_of(toks@));
        }
        Dependencies { list }
    }

    /// The dependency names joined by single spaces, ready for an
    /// install instruction.
    pub fn extract(&self) -> (r: String)
        ensures
            r@ == join_space(self@),
    {
        let mut out = String::new();
        let mut k: usize = 0;
        while k < self.list.len()
            invariant
                k <= self@.len(),
                out@ == join_space(self@.subrange(0, k as int)),
            decreases self@.len() - k,
        {
            let ghost prefix_before = self@.subrange(0, k as int);
            let ghost prefix_after = self@.subrange(0, k as int + 1);
            proof {
                assert(prefix_after.drop_last() =~= prefix_before);
                assert(prefix_after.last() == self@[k as int]);
            }
            if k > 0 {
                push_char(&mut out, ' ');
                proof {
                    assert(prefix_before.len() > 0);
                    assert(join_space(prefix_after) == join_space(prefix_before) + " "@
                        + self@[k as int]) by {
                        reveal_strlit(" ");
                    }
                }
            } else {
                proof {
                    assert(join_space(prefix_after) == self@[0]);
                }
            }
            out.append(self.list[k].as_str());
            proof {
                if k > 0 {
                    assert(out@ =~= join_space(prefix_after)) by {
                        reveal_strlit(" ");
                    }
                } else {
                    assert(out@ =~= join_space(prefix_after));
                }
            }
            k = k + 1;
        }
        proof {
            assert(self@.subrange(0, k as int) =~= self@);
        }
        out
    }

    /// How many names the list holds.
    pub fn len(&self) -> (r: usize)
        ensures
            r == self@.len(),
    {
        self.list.len()
    }
}

impl Clone for Dependencies {
    fn clone(&self) -> (r: Self)
        ensures
            r@ == self@,
    {
        let mut list: Vec<String> = Vec::new();
        let mut i: usize = 0;
        while i < self.list.len()
            invariant
                i <= self.list@.len(),
                list@.len() == i,
                forall|j: int| 0 <= j < i ==> list@[j]@ == self.list@[j]@,
            decreases self.list@.len() - i,
        {
            list.push(self.list[i].clone());
            i = i + 1;
        }
        proof {
            assert(list.deep_view() =~= self.list.deep_view());
        }
        Dependencies { list }
    }
}

/// Whether a path names a Debian package: it ends in `.deb`, and the
/// `.deb` does not begin the final path component (a bare `.deb` file
/// name has no extension).
pub open spec fn spec_is_deb_path(s: Seq<char>) -> bool {
    s.len() >= 5 && s.subrange(s.len() - 4, s.len() as int) == ".deb"@ && s[s.len() - 5] != '/'
}

/// Checks the package-format extension of a path.
pub fn is_deb_path(path: &str) -> (r: bool)
    ensures
        r == spec_is_deb_path(path@),
{
    proof {
        reveal_strlit(".deb");
    }
    let n = path.unicode_len();
    if n < 5 {
        return false;
    }
    let ok = path.get_char(n - 4) == '.' && path.get_char(n - 3) == 'd' && path.get_char(n - 2)
        == 'e' && path.get_char(n - 1) == 'b' && path.get_char(n - 5) != '/';
    proof {
        let s = path@;
        let tail = s.subrange(s.len() - 4, s.len() as int);
        if ok {
            assert(tail =~= ".deb"@);
        } else {
            if s[s.len() - 5] != '/' {
                assert(tail != ".deb"@) by {
                    if tail == ".deb"@ {
                        assert(s[s.len() - 4] == tail[0]);
                        assert(s[s.len() - 3] == tail[1]);
                        assert(s[s.len() - 2] == tail[2]);
                        assert(s[s.len() - 1] == tail[3]);
                    }
                }
            }
        }
    }
    ok
}

/// The value of a `key: value` line, executable side.
fn line_value_chars(line: &Vec<char>, key: &str) -> (r: Option<Vec<char>>)
    ensures
        match r {
            Some(v) => line_value(line@, key@) == Some(v@),
            None => line_value(line@, key@) is None,
        },
{
    let klen = key.unicode_len();
    if line.len() < 2 || klen > line.len() - 2 {
        return None;
    }
    let mut j: usize = 0;
    while j < klen
        invariant
            j <= klen,
            klen == key@.len(),
            klen + 2 <= line@.len(),
            forall|t: int| 0 <= t < j ==> line@[t] == key@[t],
        decreases klen - j,
    {
        if line[j] != key.get_char(j) {
            proof {
                let pre = line@.subrange(0, key@.len() as int);
                assert(pre[j as int] != key@[j as int]);
            }
            return None;
        }
        j = j + 1;
    }
    proof {
        assert(line@.subrange(0, key@.len() as int) =~= key@);
    }
    if line[klen] != ':' || line[klen + 1] != ' ' {
        return None;
    }
    Some(copy_range(line, klen + 2, line.len()))
}

/// The value of the first `key: value` line of the control text's lines.
fn field_of(lines: &Vec<Vec<char>>, key: &str) -> (r: Option<String>)
    ensures
        match find_field(views_of(lines@), key@) {
            Some(v) => r matches Some(s) && s@ == v,
            None => r is None,
        },
{
    let mut i: usize = 0;
    while i < lines.len()
        invariant
            i <= lines@.len(),
            forall|j: int| 0 <= j < i ==> line_value(views_of(lines@)[j], key@) is None,
        decreases lines@.len() - i,
    {
        match line_value_chars(&lines[i], key) {
            Some(v) => {
                proof {
                    lemma_find_field_complete(views_of(lines@), key@, i as int);
                }
                return Some(string_of(&v));
            },
            None => {},
        }
        i = i + 1;
    }
    proof {
        lemma_find_field_none(views_of(lines@), key@);
    }
    None
}

/// Parsed control metadata of one package archive: the mandatory package
/// name, and whichever optional fields the control text carries.
pub struct Deb {
    pub package: String,
    pub version: Option<String>,
    pub architecture: Option<String>,
    pub maintainer: Option<String>,
    pub installed_size: Option<String>,
    pub dependencies: Option<Dependencies>,
    pub section: Option<String>,
    pub priority: Option<String>,
    pub homepage: Option<String>,
    pub description: Option<String>,
}

/// Mathematical image of a [`Deb`].
#[verifier::ext_equal]
pub ghost struct DebV {
    pub package: Seq<char>,
    pub version: Option<Seq<char>>,
    pub architecture: Option<Seq<char>>,
    pub maintainer: Option<Seq<char>>,
    pub installed_size: Option<Seq<char>>,
    pub dependencies: Option<Seq<Seq<char>>>,
    pub section: Option<Seq<char>>,
    pub priority: Option<Seq<char>>,
    pub homepage: Option<Seq<char>>,
    pub description: Option<Seq<char>>,
}

impl View for Deb {
    type V = DebV;

    open spec fn view(&self) -> DebV {
        DebV {
            package: self.package@,
            version: self.version.deep_view(),
            architecture: self.architecture.deep_view(),
            maintainer: self.maintainer.deep_view(),
            installed_size: self.installed_size.deep_view(),
            dependencies: match self.dependencies {
                Some(d) => Some(d@),
                None => None,
            },
            section: self.section.deep_view(),
            priority: self.priority.deep_view(),
            homepage: self.homepage.deep_view(),
            description: self.description.deep_view(),
        }
    }
}

/// The descriptor a control text describes, given that its `Package`
/// field holds `pkg`: every other field is optional and read the same
/// way; a present `Depends` field is normalized into a dependency list.
pub open spec fn spec_descriptor(control: Seq<char>, pkg: Seq<char>) -> DebV {
    DebV {
        package: pkg,
        version: spec_field(control, "Version"@),
        architecture: spec_field(control, "Architecture"@),
        maintainer: spec_field(control, "Maintainer"@),
        installed_size: spec_field(control, "Installed-Size"@),
        dependencies: match spec_field(control, "Depends"@) {
            Some(raw) => Some(spec_parse_deps(raw)),
            None => None,
        },
        section: spec_field(control, "Section"@),
        priority: spec_field(control, "Priority"@),
        homepage: spec_field(control, "Homepage"@),
        description: spec_field(control, "Description"@),
    }
}

impl Deb {
    /// Reads a captured control text: a sequence of `key: value` lines.
    ///
    /// Only a missing `Package` field is an error; every other field
    /// falls back to absent.
    pub fn parse(control: &str) -> (r: Result<Deb, AppError>)
        ensures
            match spec_field(control@, "Package"@) {
                None => r matches Err(AppError::MissingPackageName),
                Some(pkg) => r matches Ok(d) && d@ == spec_descriptor(control@, pkg),
            },
    {
        let chars = chars_of(control);
        let lines = split_chars(&chars, '\n');
        let package = match field_of(&lines, "Package") {
            Some(p) => p,
            None => {
                return Err(AppError::MissingPackageName);
            },
        };
        let dependencies = match field_of(&lines, "Depends") {
            Some(raw) => Some(Dependencies::new(raw.as_str())),
            None => None,
        };
        let deb = Deb {
            package,
            version: field_of(&lines, "Version"),
            architecture: field_of(&lines, "Architecture"),
            maintainer: field_of(&lines, "Maintainer"),
            installed_size: field_of(&lines, "Installed-Size"),
            dependencies,
            section: field_of(&lines, "Section"),
            priority: field_of(&lines, "Priority"),
            homepage: field_of(&lines, "Homepage"),
            description: field_of(&lines, "Description"),
        };
        proof {
            assert(deb@ =~= spec_descriptor(control@, spec_field(control@, "Package"@)->Some_0));
        }
        Ok(deb)
    }
}

} // verus!
