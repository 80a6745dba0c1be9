//! Environment files and PID files: the text they hold and what it means.
//!
//! Reading the files happens outside this library; these functions take
//! their contents.

use vstd::prelude::*;

use crate::namemap::{lookup, NameMap};
use crate::textproc::{
    chars_of, first_index, lemma_first_index_bounds, lines_of, parse_u32, split_lines, string_of,
    string_views, trim, trim_bounds, trim_str, unsigned_text,
};
use crate::types::StringMap;

verus! {

/// `v` without one pair of matching surrounding quotes (`"` or `'`).
pub open spec fn unquote(v: Seq<char>) -> Seq<char> {
    if v.len() >= 2 && ((v[0] == '"' && v.last() == '"') || (v[0] == '\'' && v.last() == '\'')) {
        v.subrange(1, v.len() - 1)
    } else {
        v
    }
}

/// The `KEY=VALUE` pair of one environment-file line, if it has one: the
/// line trimmed, not empty and not a `#` comment, split at its first `=`,
/// with a non-empty trimmed key and a trimmed value without surrounding
/// quotes.
pub open spec fn env_pair(line: Seq<char>) -> Option<(Seq<char>, Seq<char>)> {
    let t = trim(line);
    if t.len() == 0 || t[0] == '#' {
        None
    } else {
        let i = first_index(t, '=');
        if i >= t.len() {
            None
        } else {
            let key = trim(t.take(i));
            if key.len() == 0 {
                None
            } else {
                Some((key, unquote(trim(t.skip(i + 1)))))
            }
        }
    }
}

/// The variables of environment-file lines, later lines overriding
/// earlier ones.
pub open spec fn env_fold(lines: Seq<Seq<char>>) -> Map<Seq<char>, Seq<char>>
    decreases lines.len(),
{
    if lines.len() == 0 {
        Map::empty()
    } else {
        let p = env_fold(lines.drop_last());
        match env_pair(lines.last()) {
            Some(kv) => p.insert(kv.0, kv.1),
            None => p,
        }
    }
}

/// The variable `k` of an environment is `o` exactly when `m` gives it.
pub open spec fn var_is(o: Option<String>, m: Map<Seq<char>, Seq<char>>, k: Seq<char>) -> bool {
    match o {
        Some(v) => m.contains_key(k) && m[k] == v@,
        None => !m.contains_key(k),
    }
}

/// `env` holds exactly the variables of `m`.
pub open spec fn env_is(env: StringMap, m: Map<Seq<char>, Seq<char>>) -> bool {
    forall|k: Seq<char>| var_is(#[trigger] lookup(env.items(), k), m, k)
}

/// Stores `k = v` in `env`.
proof fn lemma_env_insert(before: Seq<(String, String)>, after: Seq<(String, String)>, m: Map<Seq<char>, Seq<char>>, k: String, v: String)
    requires
        forall|q: Seq<char>| var_is(#[trigger] lookup(before, q), m, q),
        lookup(after, k@) == Some(v),
        forall|q: Seq<char>| q != k@ ==> lookup(after, q) == lookup(before, q),
    ensures
        forall|q: Seq<char>| var_is(#[trigger] lookup(after, q), m.insert(k@, v@), q),
{
    assert forall|q: Seq<char>| var_is(#[trigger] lookup(after, q), m.insert(k@, v@), q) by {
        if q != k@ {
            assert(lookup(after, q) == lookup(before, q));
            assert(var_is(lookup(before, q), m, q));
        }
    }
}

/// The pair of one line, computed.
#[verifier::rlimit(60)]
fn line_pair(line: &str) -> (r: Option<(String, String)>)
    ensures
        match env_pair(line@) {
            Some(kv) => r matches Some(p) && p.0@ == kv.0 && p.1@ == kv.1,
            None => r is None,
        },
{
    let chars = chars_of(line);
    let (a, b) = trim_bounds(&chars, 0, chars.len());
    assert(chars@.subrange(0, chars@.len() as int) =~= chars@);
    let ghost t = trim(line@);
    assert(chars@.subrange(a as int, b as int) == t);
    if a == b || chars[a] == '#' {
        return None;
    }
    let mut j = a;
    while j < b && chars[j] != '='
        invariant
            a <= j <= b,
            b <= chars@.len(),
            forall|k: int| a <= k < j ==> chars@[k] != '=',
        decreases b - j,
    {
        j += 1;
    }
    proof {
        lemma_first_index_bounds(t, '=');
        let fi = first_index(t, '=');
        if fi < j - a {
            assert(t[fi] == chars@[a + fi]);
        }
        if j < b {
            assert(t[j - a] == '=');
            assert(fi == j - a);
        } else {
            assert(fi == t.len());
        }
    }
    if j == b {
        return None;
    }
    let (ka, kb) = trim_bounds(&chars, a, j);
    assert(chars@.subrange(a as int, j as int) =~= t.take(j - a));
    if ka == kb {
        return None;
    }
    let (va, vb) = trim_bounds(&chars, j + 1, b);
    assert(chars@.subrange(j + 1, b as int) =~= t.skip(j - a + 1));
    let ghost vt = chars@.subrange(va as int, vb as int);
    let key = string_of(&chars, ka, kb);
    if vb - va >= 2 && ((chars[va] == '"' && chars[vb - 1] == '"') || (chars[va] == '\'' && chars[vb - 1] == '\'')) {
        let value = string_of(&chars, va + 1, vb - 1);
        assert(value@ =~= unquote(vt));
        Some((key, value))
    } else {
        let value = string_of(&chars, va, vb);
        Some((key, value))
    }
}

/// The variables of an environment file's contents. Each line holds
/// `KEY=VALUE`; blank lines and lines starting with `#` are skipped, as are
/// lines without `=` or with an empty key. Key and value are trimmed, and
/// the value loses one pair of surrounding quotes. Later lines override
/// earlier ones.
pub fn parse_environment(content: &str) -> (env: StringMap)
    ensures
        env_is(env, env_fold(split_lines(content@))),
{
    let lines = lines_of(content);
    let ghost ls = split_lines(content@);
    let n = lines.len();
    let mut env: StringMap = NameMap::new();
    let mut i: usize = 0;
    while i < n
        invariant
            n == lines@.len(),
            string_views(lines@) == ls,
            i <= n,
            env_is(env, env_fold(ls.take(i as int))),
        decreases n - i,
    {
        proof {
            assert(ls.take(i + 1).drop_last() =~= ls.take(i as int));
            assert(ls.take(i + 1).last() == lines@[i as int]@);
        }
        match line_pair(lines[i].as_str()) {
            Some((k, v)) => {
                let ghost before = env.items();
                let ghost kk = k;
                let ghost vv = v;
                env.insert(k, v);
                proof {
                    lemma_env_insert(before, env.items(), env_fold(ls.take(i as int)), kk, vv);
                }
            },
            None => {},
        }
        i += 1;
    }
    assert(ls.take(n as int) =~= ls);
    env
}

/// The variables of several environment files, in order, later files
/// overriding earlier ones; a file that could not be read (`None`) is
/// skipped.
pub open spec fn files_fold(files: Seq<Option<String>>) -> Map<Seq<char>, Seq<char>>
    decreases files.len(),
{
    if files.len() == 0 {
        Map::empty()
    } else {
        let p = files_fold(files.drop_last());
        match files.last() {
            Some(c) => p.union_prefer_right(env_fold(split_lines(c@))),
            None => p,
        }
    }
}

/// Merges the variables of several environment files given by their
/// contents, in order: later files override earlier ones, and a file that
/// could not be read (`None`) is skipped.
pub fn load_environment_files(files: &[Option<String>]) -> (env: StringMap)
    ensures
        env_is(env, files_fold(files@)),
{
    let n = files.len();
    let mut env: StringMap = NameMap::new();
    let mut i: usize = 0;
    while i < n
        invariant
            n == files@.len(),
            i <= n,
            env_is(env, files_fold(files@.take(i as int))),
        decreases n - i,
    {
        proof {
            assert(files@.take(i + 1).drop_last() =~= files@.take(i as int));
            assert(files@.take(i + 1).last() == files@[i as int]);
        }
        match &files[i] {
            Some(content) => {
                let one = parse_environment(content.as_str());
                let ghost base = files_fold(files@.take(i as int));
                let ghost add = env_fold(split_lines(content@));
                let m = one.len();
                let mut j: usize = 0;
                while j < m
                    invariant
                        m == one.items().len(),
                        j <= m,
                        env_is(one, add),
                        forall|k: Seq<char>| var_is(
                            #[trigger] lookup(env.items(), k),
                            if exists|x: int| 0 <= x < j && #[trigger] one.items()[x].0@ == k {
                                base.insert(k, add[k])
                            } else {
                                base
                            },
                            k,
                        ),
                        crate::namemap::sorted_keys(one.items()),
                    decreases m - j,
                {
                    let (k, v) = one.entry(j);
                    proof {
                        crate::namemap::lemma_key_index_unique(one.items(), j as int);
                        assert(var_is(lookup(one.items(), k@), add, k@));
                    }
                    let ghost before = env.items();
                    env.insert(k.clone(), v.clone());
                    proof {
                        assert forall|q: Seq<char>| var_is(
                            #[trigger] lookup(env.items(), q),
                            if exists|x: int| 0 <= x < j + 1 && #[trigger] one.items()[x].0@ == q {
                                base.insert(q, add[q])
                            } else {
                                base
                            },
                            q,
                        ) by {
                            if q != k@ {
                                assert(lookup(env.items(), q) == lookup(before, q));
                                if exists|x: int| 0 <= x < j + 1 && #[trigger] one.items()[x].0@ == q {
                                    let x = choose|x: int| 0 <= x < j + 1 && #[trigger] one.items()[x].0@ == q;
                                    assert(x != j);
                                }
                            } else {
                                assert(one.items()[j as int].0@ == q);
                            }
                        }
                    }
                    j += 1;
                }
                proof {
                    let total = base.union_prefer_right(add);
                    assert forall|k: Seq<char>| var_is(#[trigger] lookup(env.items(), k), total, k) by {
                        if exists|x: int| 0 <= x < m && #[trigger] one.items()[x].0@ == k {
                            let x = choose|x: int| 0 <= x < m && #[trigger] one.items()[x].0@ == k;
                            assert(crate::namemap::has_key(one.items(), k));
                            assert(var_is(lookup(one.items(), k), add, k));
                            assert(add.contains_key(k));
                        } else {
                            assert(!crate::namemap::has_key(one.items(), k));
                            assert(var_is(lookup(one.items(), k), add, k));
                            assert(!add.contains_key(k));
                        }
                    }
                }
            },
            None => {},
        }
        i += 1;
    }
    assert(files@.take(n as int) =~= files@);
    env
}

/// Why a PID file's contents name no PID.
#[derive(Debug, PartialEq, Eq)]
pub enum PidFileError {
    /// The trimmed contents are not a number that fits a PID.
    Invalid { text: String },
    /// The PID is 0.
    Zero,
}

/// The PID that a PID file's contents name: the trimmed contents read as a
/// `u32`, which must not be 0.
pub fn parse_pid(content: &str) -> (r: Result<u32, PidFileError>)
    ensures
        match unsigned_text(trim(content@)) {
            Some(v) => if v > u32::MAX {
                r matches Err(PidFileError::Invalid { text }) && text@ == trim(content@)
            } else if v == 0 {
                r == Err::<u32, PidFileError>(PidFileError::Zero)
            } else {
                r == Ok::<u32, PidFileError>(v as u32)
            },
            None => r matches Err(PidFileError::Invalid { text }) && text@ == trim(content@),
        },
{
    let t = trim_str(content);
    match parse_u32(t.as_str()) {
        Some(pid) => {
            if pid == 0 {
                Err(PidFileError::Zero)
            } else {
                Ok(pid)
            }
        },
        None => Err(PidFileError::Invalid { text: t }),
    }
}

} // verus!
