use vstd::prelude::*;
use crate::text::{
    chars_of, decimal, extend_chars, holds_text, lemma_skip_leading, lemma_skip_trailing, numeral,
    same_text, skip_leading, skip_trailing, string_of, string_of_range, stripped, texts,
};

verus! {

/// A path with every backslash turned into a forward slash.
pub open spec fn normalized(path: Seq<char>) -> Seq<char> {
    path.map_values(|c: char| if c == '\\' { '/' } else { c })
}

/// Turns the backslashes of a path into forward slashes.
pub fn normalize_git_path(path: &str) -> (r: String)
    ensures
        r@ == normalized(path@),
{
    let v = chars_of(path);
    let mut out: Vec<char> = Vec::new();
    let mut i: usize = 0;
    while i < v.len()
        invariant
            i <= v.len(),
            v@ == path@,
            out@ == normalized(path@.take(i as int)),
        decreases v.len() - i,
    {
        let c = v[i];
        out.push(if c == '\\' { '/' } else { c });
        i += 1;
        assert(normalized(path@.take(i as int)) =~= normalized(path@.take(i - 1)).push(
            if c == '\\' { '/' } else { c },
        ));
    }
    assert(path@.take(v.len() as int) =~= path@);
    string_of(&out)
}

/// The directories that a walk over a workspace does not enter.
pub open spec fn skipped_dir(name: Seq<char>) -> bool {
    ||| name == ".git"@
    ||| name == "node_modules"@
    ||| name == "dist"@
    ||| name == "target"@
    ||| name == "release-artifacts"@
}

/// Whether a walk over a workspace leaves the directory `name` out.
pub fn should_skip_dir(name: &str) -> (r: bool)
    ensures
        r == skipped_dir(name@),
{
    same_text(name, ".git") || same_text(name, "node_modules") || same_text(name, "dist")
        || same_text(name, "target") || same_text(name, "release-artifacts")
}

/// The characters that a worktree's directory name may hold: ASCII letters
/// and digits, `-`, `_` and `.`.
pub open spec fn safe_char(c: char) -> bool {
    ||| ('a' as u32 <= c as u32 && c as u32 <= 'z' as u32)
    ||| ('A' as u32 <= c as u32 && c as u32 <= 'Z' as u32)
    ||| ('0' as u32 <= c as u32 && c as u32 <= '9' as u32)
    ||| c == '-'
    ||| c == '_'
    ||| c == '.'
}

/// A character of a branch name as it stands in the directory name.
pub open spec fn safe_or_dash(c: char) -> char {
    if safe_char(c) {
        c
    } else {
        '-'
    }
}

/// The predicate that holds of `-` alone.
pub open spec fn is_dash() -> spec_fn(char) -> bool {
    |c: char| c == '-'
}

/// Whether every character of a name is safe.
pub open spec fn all_safe(name: Seq<char>) -> bool {
    forall|i: int| 0 <= i < name.len() ==> safe_char(#[trigger] name[i])
}

/// The directory name for a branch: every character that is not safe
/// becomes `-`, the `-` at both ends go, and what is left, or `worktree`
/// if nothing is left, is the name.
pub open spec fn sanitized(branch: Seq<char>) -> Seq<char> {
    let core = stripped(branch.map_values(|c: char| safe_or_dash(c)), is_dash());
    if core.len() == 0 {
        "worktree"@
    } else {
        core
    }
}

/// Whether a character may stand in a worktree's directory name.
pub fn is_safe_char(c: char) -> (r: bool)
    ensures
        r == safe_char(c),
{
    let n = c as u32;
    ('a' as u32 <= n && n <= 'z' as u32) || ('A' as u32 <= n && n <= 'Z' as u32) || ('0' as u32
        <= n && n <= '9' as u32) || c == '-' || c == '_' || c == '.'
}

/// The bounds of `v` without the `-` at its two ends.
fn strip_dashes(v: &Vec<char>) -> (r: (usize, usize))
    ensures
        r.0 <= r.1 <= v.len(),
        stripped(v@, is_dash()) == v@.subrange(r.0 as int, r.1 as int),
{
    let mut i: usize = 0;
    while i < v.len() && v[i] == '-'
        invariant
            i <= v.len(),
            forall|k: int| 0 <= k < i ==> #[trigger] v@[k] == '-',
        decreases v.len() - i,
    {
        i += 1;
    }
    let mut j: usize = v.len();
    while j > i && v[j - 1] == '-'
        invariant
            i <= j <= v.len(),
            forall|k: int| j <= k < v.len() ==> #[trigger] v@[k] == '-',
        decreases j,
    {
        j -= 1;
    }
    proof {
        let p = is_dash();
        assert forall|k: int| 0 <= k < i implies p(#[trigger] v@[k]) by {
            assert(v@[k] == '-');
        }
        lemma_skip_leading(v@, p, i as int);
        let rest = v@.skip(i as int);
        assert forall|k: int| j - i <= k < rest.len() implies p(#[trigger] rest[k]) by {
            assert(rest[k] == v@[k + i]);
            assert(v@[k + i] == '-');
        }
        if j > i {
            assert(rest[j - i - 1] == v@[j - 1]);
        }
        lemma_skip_trailing(rest, p, j - i);
        assert(rest.take(j - i) =~= v@.subrange(i as int, j as int));
    }
    (i, j)
}

/// The name `worktree` is made of safe characters.
pub proof fn lemma_placeholder_is_safe()
    ensures
        all_safe("worktree"@),
        "worktree"@.len() == 8,
{
    reveal_strlit("worktree");
    assert("worktree"@.len() == 8);
    assert forall|i: int| 0 <= i < "worktree"@.len() implies safe_char(
        #[trigger] "worktree"@[i],
    ) by {
        assert("worktree"@[0] == 'w');
        assert("worktree"@[1] == 'o');
        assert("worktree"@[2] == 'r');
        assert("worktree"@[3] == 'k');
        assert("worktree"@[4] == 't');
        assert("worktree"@[5] == 'r');
        assert("worktree"@[6] == 'e');
        assert("worktree"@[7] == 'e');
    }
}

/// What is left of a text after characters are removed from its two ends
/// is a stretch of that text.
pub proof fn lemma_stripped_is_stretch(s: Seq<char>, p: spec_fn(char) -> bool)
    ensures
        exists|i: int, j: int|
            0 <= i <= j <= s.len() && stripped(s, p) == #[trigger] s.subrange(i, j),
{
    lemma_leading_is_suffix(s, p);
    let i = choose|i: int| 0 <= i <= s.len() && skip_leading(s, p) == s.skip(i);
    let rest = s.skip(i);
    lemma_trailing_is_prefix(rest, p);
    let n = choose|n: int| 0 <= n <= rest.len() && skip_trailing(rest, p) == rest.take(n);
    assert(rest.take(n) =~= s.subrange(i, i + n));
}

/// What `skip_leading` leaves is a suffix.
pub proof fn lemma_leading_is_suffix(s: Seq<char>, p: spec_fn(char) -> bool)
    ensures
        exists|i: int| 0 <= i <= s.len() && skip_leading(s, p) == #[trigger] s.skip(i),
    decreases s.len(),
{
    if s.len() > 0 && p(s[0]) {
        let rest = s.drop_first();
        lemma_leading_is_suffix(rest, p);
        let i = choose|i: int| 0 <= i <= rest.len() && skip_leading(rest, p) == rest.skip(i);
        assert(rest.skip(i) =~= s.skip(i + 1));
    } else {
        assert(s.skip(0) =~= s);
    }
}

/// What `skip_trailing` leaves is a prefix.
pub proof fn lemma_trailing_is_prefix(s: Seq<char>, p: spec_fn(char) -> bool)
    ensures
        exists|n: int| 0 <= n <= s.len() && skip_trailing(s, p) == #[trigger] s.take(n),
    decreases s.len(),
{
    if s.len() > 0 && p(s.last()) {
        let rest = s.drop_last();
        lemma_trailing_is_prefix(rest, p);
        let n = choose|n: int| 0 <= n <= rest.len() && skip_trailing(rest, p) == rest.take(n);
        assert(rest.take(n) =~= s.take(n));
    } else {
        assert(s.take(s.len() as int) =~= s);
    }
}

/// The directory name of every branch name is not empty and holds safe
/// characters only.
pub proof fn law_sanitized_is_safe(branch: Seq<char>)
    ensures
        sanitized(branch).len() > 0,
        all_safe(sanitized(branch)),
{
    let mapped = branch.map_values(|c: char| safe_or_dash(c));
    let core = stripped(mapped, is_dash());
    lemma_placeholder_is_safe();
    if core.len() > 0 {
        lemma_stripped_is_stretch(mapped, is_dash());
        let (i, j) = choose|i: int, j: int|
            0 <= i <= j <= mapped.len() && stripped(mapped, is_dash()) == #[trigger] mapped.subrange(
                i,
                j,
            );
        assert forall|k: int| 0 <= k < core.len() implies safe_char(#[trigger] core[k]) by {
            assert(core[k] == mapped[i + k]);
            assert(mapped[i + k] == safe_or_dash(branch[i + k]));
        }
    }
}

/// The directory name for a branch.
pub fn sanitize_worktree_name(branch: &str) -> (r: String)
    ensures
        r@ == sanitized(branch@),
        r@.len() > 0,
        all_safe(r@),
{
    let v = chars_of(branch);
    let mut mapped: Vec<char> = Vec::new();
    let mut i: usize = 0;
    while i < v.len()
        invariant
            i <= v.len(),
            v@ == branch@,
            mapped@ == branch@.take(i as int).map_values(|c: char| safe_or_dash(c)),
        decreases v.len() - i,
    {
        let c = v[i];
        mapped.push(if is_safe_char(c) { c } else { '-' });
        i += 1;
        assert(branch@.take(i as int).map_values(|c: char| safe_or_dash(c)) =~= branch@.take(
            i - 1,
        ).map_values(|c: char| safe_or_dash(c)).push(safe_or_dash(c)));
    }
    assert(branch@.take(v.len() as int) =~= branch@);
    proof {
        law_sanitized_is_safe(branch@);
    }
    let (from, to) = strip_dashes(&mapped);
    if from == to {
        "worktree".to_owned()
    } else {
        string_of_range(&mapped, from, to)
    }
}

/// The `index`-th name that is tried for a worktree directory: the name
/// itself first, then the name with `-2`, `-3` and so on.
pub open spec fn candidate(name: Seq<char>, index: nat) -> Seq<char> {
    if index <= 1 {
        name
    } else {
        name.push('-') + numeral(index)
    }
}

/// The first index from `from` up to, but not including, `limit` whose
/// candidate is not taken.
pub open spec fn first_free(name: Seq<char>, taken: Seq<Seq<char>>, from: nat, limit: nat) -> Option<
    nat,
>
    decreases limit - from,
{
    if from >= limit {
        None
    } else if !taken.contains(candidate(name, from)) {
        Some(from)
    } else {
        first_free(name, taken, from + 1, limit)
    }
}

/// The name that a new worktree directory gets: the first candidate that
/// is not taken, among the name and its numbered forms up to `-999`; the
/// name itself when all of them are taken.
pub open spec fn unique_name(name: Seq<char>, taken: Seq<Seq<char>>) -> Seq<char> {
    match first_free(name, taken, 1, 1000) {
        Some(index) => candidate(name, index),
        None => name,
    }
}

/// Two paths joined as on a Unix system: an absolute `name` stands alone,
/// and else a `/` goes between the two unless `base` is empty or ends in one.
pub open spec fn joined(base: Seq<char>, name: Seq<char>) -> Seq<char> {
    if name.len() > 0 && name[0] == '/' {
        name
    } else if base.len() == 0 || base.last() == '/' {
        base + name
    } else {
        base.push('/') + name
    }
}

/// The `index`-th name that is tried for a worktree directory.
pub fn worktree_candidate(name: &str, index: u64) -> (r: String)
    ensures
        r@ == candidate(name@, index as nat),
{
    if index <= 1 {
        name.to_owned()
    } else {
        let mut v = chars_of(name);
        v.push('-');
        let digits = decimal(index);
        extend_chars(&mut v, &digits);
        string_of(&v)
    }
}

/// The name for a new worktree directory, given the names that are taken.
pub fn unique_worktree_name(name: &str, taken: &Vec<String>) -> (r: String)
    ensures
        r@ == unique_name(name@, texts(taken@)),
        first_free(name@, texts(taken@), 1, 1000) is Some ==> !texts(taken@).contains(r@),
{
    let mut index: u64 = 1;
    while index < 1000
        invariant
            1 <= index <= 1000,
            first_free(name@, texts(taken@), 1, 1000) == first_free(
                name@,
                texts(taken@),
                index as nat,
                1000,
            ),
        decreases 1000 - index,
    {
        let next = worktree_candidate(name, index);
        if !holds_text(taken, next.as_str()) {
            return next;
        }
        index += 1;
    }
    name.to_owned()
}

/// Joins two paths as on a Unix system.
pub fn join_path(base: &str, name: &str) -> (r: String)
    ensures
        r@ == joined(base@, name@),
{
    let b = chars_of(base);
    let n = chars_of(name);
    if n.len() > 0 && n[0] == '/' {
        return name.to_owned();
    }
    let mut v = b;
    if v.len() > 0 && v[v.len() - 1] != '/' {
        v.push('/');
    }
    extend_chars(&mut v, &n);
    string_of(&v)
}

/// The path for a new worktree under `base_dir`: the directory joined
/// with the first name that is not among `taken`, the names that exist there.
pub fn unique_worktree_path(base_dir: &str, name: &str, taken: &Vec<String>) -> (r: String)
    ensures
        r@ == joined(base_dir@, unique_name(name@, texts(taken@))),
{
    let chosen = unique_worktree_name(name, taken);
    join_path(base_dir, chosen.as_str())
}

/// Two worktrees that ask for one name get two directories: once the first
/// name is taken, the next one is a numbered form of the name, different
/// from the first and from every other name that is taken, as long as one
/// of the candidates is free.
pub proof fn law_colliding_names_differ(name: Seq<char>, taken: Seq<Seq<char>>)
    requires
        first_free(name, taken.push(unique_name(name, taken)), 1, 1000) is Some,
    ensures
        unique_name(name, taken.push(unique_name(name, taken))) != unique_name(name, taken),
        !taken.contains(unique_name(name, taken.push(unique_name(name, taken)))),
        exists|index: nat|
            2 <= index < 1000 && unique_name(name, taken.push(unique_name(name, taken)))
                == #[trigger] candidate(name, index),
{
    let first = unique_name(name, taken);
    let then = taken.push(first);
    lemma_first_free(name, then, 1, 1000);
    lemma_first_free(name, taken, 1, 1000);
    let second = unique_name(name, then);
    assert(then[then.len() - 1] == first);
    assert(then.contains(first));
    if taken.contains(second) {
        let k = choose|k: int| 0 <= k < taken.len() && taken[k] == second;
        assert(then[k] == second);
        assert(then.contains(second));
    }
    assert(then.contains(name)) by {
        if taken.contains(name) {
            let k = choose|k: int| 0 <= k < taken.len() && taken[k] == name;
            assert(then[k] == name);
        } else {
            assert(candidate(name, 1) == name);
            assert(first_free(name, taken, 1, 1000) == Some(1nat));
        }
    }
    let index = first_free(name, then, 1, 1000)->0;
    assert(index != 1) by {
        assert(candidate(name, 1) == name);
    }
    assert(second == candidate(name, index));
}

/// Two different names that are not absolute paths give two different
/// paths under one directory.
pub proof fn law_distinct_names_distinct_paths(base: Seq<char>, a: Seq<char>, b: Seq<char>)
    requires
        a != b,
        a.len() == 0 || a[0] != '/',
        b.len() == 0 || b[0] != '/',
    ensures
        joined(base, a) != joined(base, b),
{
    let prefix = if base.len() == 0 || base.last() == '/' {
        base
    } else {
        base.push('/')
    };
    assert(joined(base, a) == prefix + a);
    assert(joined(base, b) == prefix + b);
    if prefix + a == prefix + b {
        assert((prefix + a).skip(prefix.len() as int) =~= a);
        assert((prefix + b).skip(prefix.len() as int) =~= b);
    }
}

/// The index that `first_free` finds is in range and its candidate is not taken.
pub proof fn lemma_first_free(name: Seq<char>, taken: Seq<Seq<char>>, from: nat, limit: nat)
    ensures
        first_free(name, taken, from, limit) matches Some(index) ==> from <= index < limit
            && !taken.contains(candidate(name, index)),
    decreases limit - from,
{
    if from < limit && taken.contains(candidate(name, from)) {
        lemma_first_free(name, taken, from + 1, limit);
    }
}

} // verus!
