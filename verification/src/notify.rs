//! Parsing of sd_notify readiness messages.
//!
//! A service reports readiness by sending newline-separated `KEY=VALUE`
//! pairs (`READY=1`, `STATUS=...`, `MAINPID=...`) to the init system's
//! notification socket. The socket itself is served outside this library.

use vstd::prelude::*;

use crate::namemap::{lookup, NameMap};
use crate::text::str_eq;
use crate::textproc::{chars_of, first_index, lemma_first_index_bounds, lines_of, parse_u32, split_lines, string_of, string_views, unsigned_text};
use crate::types::StringMap;

verus! {

/// What `String::from_utf8_lossy` makes of `data`: the text it encodes,
/// with each invalid sequence replaced by U+FFFD.
pub uninterp spec fn lossy_text(data: Seq<u8>) -> Seq<char>;

/// The text of `data`, decoded as UTF-8 with invalid sequences replaced.
///
/// Trusted: the body calls `String::from_utf8_lossy`. The contract names
/// the result as a function of the bytes, and says that ASCII bytes, being
/// valid UTF-8, come out as the characters they encode; what the decoding
/// does with other bytes is left to std's documentation.
#[verifier::external_body]
fn utf8_lossy(data: &[u8]) -> (s: String)
    ensures
        s@ == lossy_text(data@),
        (forall|i: int| 0 <= i < data@.len() ==> #[trigger] data@[i] < 128) ==> s@ == data@.map_values(
            |b: u8| b as char,
        ),
{
    String::from_utf8_lossy(data).into_owned()
}

/// Fields parsed from an sd_notify message.
#[derive(Debug)]
pub struct NotifyMessage {
    /// Whether `READY=1` was present.
    pub ready: bool,
    /// `STATUS=<string>`, if present.
    pub status: Option<String>,
    /// `MAINPID=<pid>`, if present and a valid PID.
    pub main_pid: Option<u32>,
    /// All `KEY=VALUE` pairs of the message.
    pub fields: StringMap,
}

/// The PID that `v` spells, as `u32` parsing reads it.
pub open spec fn pid_text(v: Seq<char>) -> Option<u32> {
    match unsigned_text(v) {
        Some(n) => if n <= u32::MAX {
            Some(n as u32)
        } else {
            None
        },
        None => None,
    }
}

/// The message fields after `lines`, each line with an `=` read as
/// `KEY=VALUE` split at its first `=`, later lines overriding earlier ones:
/// (ready, status, main PID, all fields).
pub open spec fn notify_fold(lines: Seq<Seq<char>>) -> (bool, Option<Seq<char>>, Option<u32>, Map<Seq<char>, Seq<char>>)
    decreases lines.len(),
{
    if lines.len() == 0 {
        (false, None, None, Map::empty())
    } else {
        let p = notify_fold(lines.drop_last());
        let l = lines.last();
        let i = first_index(l, '=');
        if i >= l.len() {
            p
        } else {
            let k = l.take(i);
            let v = l.skip(i + 1);
            (
                if k == "READY"@ {
                    v == "1"@
                } else {
                    p.0
                },
                if k == "STATUS"@ {
                    Some(v)
                } else {
                    p.1
                },
                if k == "MAINPID"@ {
                    pid_text(v)
                } else {
                    p.2
                },
                p.3.insert(k, v),
            )
        }
    }
}

/// The field `k` of a message is `o` exactly when `f` gives it.
pub open spec fn field_is(o: Option<String>, f: Map<Seq<char>, Seq<char>>, k: Seq<char>) -> bool {
    match o {
        Some(v) => f.contains_key(k) && f[k] == v@,
        None => !f.contains_key(k),
    }
}

/// `m` holds the fields `f`.
pub open spec fn message_is(m: NotifyMessage, f: (bool, Option<Seq<char>>, Option<u32>, Map<Seq<char>, Seq<char>>)) -> bool {
    &&& m.ready == f.0
    &&& match m.status {
        Some(s) => f.1 == Some(s@),
        None => f.1 is None,
    }
    &&& m.main_pid == f.2
    &&& forall|k: Seq<char>| field_is(#[trigger] lookup(m.fields.items(), k), f.3, k)
}

impl NotifyMessage {
    /// Parses an sd_notify message: newline-separated `KEY=VALUE` pairs.
    /// `READY=1` sets `ready`, `STATUS` the status, and `MAINPID` the main
    /// PID; every pair is kept in `fields`, later ones overriding earlier.
    pub fn parse_str(text: &str) -> (m: Self)
        ensures
            message_is(m, notify_fold(split_lines(text@))),
    {
        let lines = lines_of(text);
        let ghost ls = split_lines(text@);
        let n = lines.len();
        let mut m = NotifyMessage { ready: false, status: None, main_pid: None, fields: NameMap::new() };
        let mut i: usize = 0;
        while i < n
            invariant
                n == lines@.len(),
                string_views(lines@) == ls,
                i <= n,
                message_is(m, notify_fold(ls.take(i as int))),
            decreases n - i,
        {
            let line = chars_of(lines[i].as_str());
            let ghost l = ls[i as int];
            assert(line@ == l);
            proof {
                assert(ls.take(i + 1).drop_last() =~= ls.take(i as int));
                assert(ls.take(i + 1).last() == l);
                lemma_first_index_bounds(l, '=');
            }
            let len = line.len();
            let mut j: usize = 0;
            while j < len && line[j] != '='
                invariant
                    len == line@.len(),
                    j <= len,
                    forall|k: int| 0 <= k < j ==> line@[k] != '=',
                decreases len - j,
            {
                j += 1;
            }
            proof {
                lemma_first_index_bounds(l, '=');
                if j < len {
                    assert(first_index(l, '=') <= j);
                    assert(first_index(l, '=') >= j) by {
                        if first_index(l, '=') < j {
                            assert(l[first_index(l, '=')] == '=');
                        }
                    }
                } else {
                    assert(first_index(l, '=') == len) by {
                        if first_index(l, '=') < len {
                            assert(l[first_index(l, '=')] == '=');
                        }
                    }
                }
            }
            if j < len {
                let key = string_of(&line, 0, j);
                let value = string_of(&line, j + 1, len);
                assert(key@ =~= l.take(j as int));
                assert(value@ =~= l.skip(j + 1));
                let ghost prev = notify_fold(ls.take(i as int));
                proof {
                    reveal_strlit("READY");
                    reveal_strlit("STATUS");
                    reveal_strlit("MAINPID");
                    assert("READY"@[0] != "STATUS"@[0]);
                    assert("READY"@[0] != "MAINPID"@[0]);
                    assert("STATUS"@[0] != "MAINPID"@[0]);
                }
                if str_eq(key.as_str(), "READY") {
                    m.ready = str_eq(value.as_str(), "1");
                } else if str_eq(key.as_str(), "STATUS") {
                    m.status = Some(value.clone());
                } else if str_eq(key.as_str(), "MAINPID") {
                    m.main_pid = parse_u32(value.as_str());
                }
                let ghost before = m.fields.items();
                m.fields.insert(key, value);
                proof {
                    let f = notify_fold(ls.take(i + 1));
                    assert(f.3 == prev.3.insert(l.take(j as int), l.skip(j + 1)));
                    assert forall|k: Seq<char>| field_is(#[trigger] lookup(m.fields.items(), k), f.3, k) by {
                        if k != l.take(j as int) {
                            assert(lookup(m.fields.items(), k) == lookup(before, k));
                            assert(field_is(lookup(before, k), prev.3, k));
                        }
                    }
                }
            }
            i += 1;
        }
        assert(ls.take(n as int) =~= ls);
        m
    }

    /// Parses an sd_notify message from the bytes received, decoded as
    /// UTF-8 with invalid sequences replaced.
    pub fn parse(data: &[u8]) -> (m: Self)
        ensures
            message_is(m, notify_fold(split_lines(lossy_text(data@)))),
    {
        let text = utf8_lossy(data);
        Self::parse_str(text.as_str())
    }
}

} // verus!
