//! systemd unit files for service definitions, for hybrid installs where
//! services may also be managed by systemd.

use vstd::prelude::*;

use crate::namemap::sorted_keys;
use crate::textproc::{first_index, lemma_first_index_concat, lemma_split_lines_concat, lemma_split_one_line, split_lines, strip_cr};
use crate::text::{dec, owned, push_char, push_str, push_u64};
use crate::types::{BootMode, RestartPolicy, ServiceDefinition};

verus! {

/// One character of a unit-file value: a newline becomes a space, a
/// carriage return is dropped, and `$` is doubled.
pub open spec fn sanitize_char(c: char) -> Seq<char> {
    if c == '\n' {
        seq![' ']
    } else if c == '\r' {
        seq![]
    } else if c == '$' {
        seq!['$', '$']
    } else {
        seq![c]
    }
}

/// A unit-file value: no line breaks, and no variable expansion.
pub open spec fn sanitize(s: Seq<char>) -> Seq<char>
    decreases s.len(),
{
    if s.len() == 0 {
        seq![]
    } else {
        sanitize(s.drop_last()) + sanitize_char(s.last())
    }
}

/// A sanitized value holds no line break, so it cannot start a new
/// directive in a unit file.
pub proof fn lemma_sanitized_has_no_line_breaks(s: Seq<char>)
    ensures
        forall|i: int| 0 <= i < sanitize(s).len() ==> #[trigger] sanitize(s)[i] != '\n' && sanitize(s)[i] != '\r',
    decreases s.len(),
{
    if s.len() > 0 {
        lemma_sanitized_has_no_line_breaks(s.drop_last());
        let a = sanitize(s.drop_last());
        let b = sanitize_char(s.last());
        assert forall|i: int| 0 <= i < sanitize(s).len() implies #[trigger] sanitize(s)[i] != '\n' && sanitize(s)[i]
            != '\r' by {
            if i < a.len() {
                assert(sanitize(s)[i] == a[i]);
            } else {
                assert(sanitize(s)[i] == b[i - a.len()]);
            }
        }
    }
}

/// One character inside double quotes: `\` and `"` get a backslash.
pub open spec fn quote_char(c: char) -> Seq<char> {
    if c == '\\' {
        seq!['\\', '\\']
    } else if c == '"' {
        seq!['\\', '"']
    } else {
        seq![c]
    }
}

/// The characters of `s` escaped for double quotes.
pub open spec fn quote_escape(s: Seq<char>) -> Seq<char>
    decreases s.len(),
{
    if s.len() == 0 {
        seq![]
    } else {
        quote_escape(s.drop_last()) + quote_char(s.last())
    }
}

/// An `ExecStart` word: sanitized, and quoted when it holds a space, a
/// quote or a backslash.
pub open spec fn escape(s: Seq<char>) -> Seq<char> {
    let t = sanitize(s);
    if t.contains(' ') || t.contains('"') || t.contains('\\') {
        seq!['"'] + quote_escape(t) + seq!['"']
    } else {
        t
    }
}

/// `<dep>.service` for each dependency, separated by spaces.
pub open spec fn unit_list(deps: Seq<String>) -> Seq<char>
    decreases deps.len(),
{
    if deps.len() == 0 {
        seq![]
    } else if deps.len() == 1 {
        deps[0]@ + ".service"@
    } else {
        unit_list(deps.drop_last()) + " "@ + deps.last()@ + ".service"@
    }
}

/// The escaped arguments, separated by spaces.
pub open spec fn escaped_args(args: Seq<String>) -> Seq<char>
    decreases args.len(),
{
    if args.len() == 0 {
        seq![]
    } else if args.len() == 1 {
        escape(args[0]@)
    } else {
        escaped_args(args.drop_last()) + " "@ + escape(args.last()@)
    }
}

/// The `Environment=` lines, one per variable, in name order.
pub open spec fn env_lines(items: Seq<(String, String)>) -> Seq<char>
    decreases items.len(),
{
    if items.len() == 0 {
        seq![]
    } else {
        env_lines(items.drop_last()) + "Environment=\""@ + sanitize(items.last().0@) + "="@ + sanitize(
            items.last().1@,
        ) + "\"\n"@
    }
}

/// The `Restart=` word of a policy.
pub open spec fn restart_word(p: RestartPolicy) -> Seq<char> {
    match p {
        RestartPolicy::Always => "always"@,
        RestartPolicy::OnFailure => "on-failure"@,
        RestartPolicy::Never => "no"@,
    }
}

/// The `ExecStart=` value of `svc`: the escaped binary, then the escaped
/// arguments.
pub open spec fn exec_spec(svc: ServiceDefinition) -> Seq<char> {
    escape(svc.binary_path@) + (if svc.args@.len() > 0 {
        " "@ + escaped_args(svc.args@)
    } else {
        seq![]
    })
}

/// `Restart=` and `RestartSec=` (the base delay in whole seconds, at
/// least 1).
pub open spec fn restart_lines(svc: ServiceDefinition) -> Seq<char> {
    let rs = svc.restart_config.base_delay_ms / 1000;
    "Restart="@ + restart_word(svc.restart_policy) + "\n"@ + "RestartSec="@ + dec(
        if rs >= 1 {
            rs as nat
        } else {
            1
        },
    ) + "\n"@
}

/// `StartLimitBurst=` when there is a restart limit.
pub open spec fn limit_line(svc: ServiceDefinition) -> Seq<char> {
    if svc.restart_config.max_restarts > 0 {
        "StartLimitBurst="@ + dec(svc.restart_config.max_restarts as nat) + "\n"@
    } else {
        seq![]
    }
}

/// `WatchdogSec=` from the health check, when at least a second.
pub open spec fn watchdog_line(svc: ServiceDefinition) -> Seq<char> {
    match svc.health_check {
        Some(hc) => if (hc.interval_ms * hc.retries) / 1000 > 0 {
            "WatchdogSec="@ + dec(((hc.interval_ms * hc.retries) / 1000) as nat) + "\n"@
        } else {
            seq![]
        },
        None => seq![],
    }
}

/// The `[Install]` section.
pub open spec fn install_lines(svc: ServiceDefinition) -> Seq<char> {
    "NotifyAccess=main\n"@ + "\n"@ + "[Install]\n"@ + (if svc.required_for_modes@.contains(BootMode::Desktop) {
        "WantedBy=graphical.target\n"@
    } else {
        "WantedBy=multi-user.target\n"@
    })
}

/// The restart, watchdog and install lines of `svc`.
pub open spec fn tail_spec(svc: ServiceDefinition) -> Seq<char> {
    restart_lines(svc) + limit_line(svc) + watchdog_line(svc) + install_lines(svc)
}

/// The unit file of `svc`.
pub open spec fn unit_spec(svc: ServiceDefinition) -> Seq<char> {
    let deps = unit_list(svc.depends_on@);
    "[Unit]\n"@ + "Description="@ + sanitize(svc.description@) + "\n"@ + (if svc.depends_on@.len() > 0 {
        "After="@ + deps + "\n"@ + "Requires="@ + deps + "\n"@
    } else {
        seq![]
    }) + "\n"@ + "[Service]\n"@ + "Type=notify\n"@ + "ExecStart="@ + exec_spec(svc) + "\n"@ + env_lines(
        svc.environment.items(),
    ) + tail_spec(svc)
}

/// Appends `v` sanitized for a unit file.
fn push_sanitized(out: &mut String, v: &str)
    ensures
        final(out)@ == old(out)@ + sanitize(v@),
{
    let n = v.unicode_len();
    let mut i: usize = 0;
    assert(v@.take(0) =~= Seq::<char>::empty());
    while i < n
        invariant
            n == v@.len(),
            i <= n,
            out@ == old(out)@ + sanitize(v@.take(i as int)),
        decreases n - i,
    {
        let c = v.get_char(i);
        let ghost before = out@;
        if c == '\n' {
            push_char(out, ' ');
        } else if c == '\r' {
        } else if c == '$' {
            push_char(out, '$');
            push_char(out, '$');
        } else {
            push_char(out, c);
        }
        proof {
            assert(v@.take(i + 1).drop_last() =~= v@.take(i as int));
            assert(v@.take(i + 1).last() == c);
            assert(out@ =~= before + sanitize_char(c));
        }
        i += 1;
    }
    assert(v@.take(n as int) =~= v@);
}

/// `v` sanitized for a unit file: line breaks made harmless and `$`
/// doubled.
pub fn sanitize_unit_value(v: &str) -> (s: String)
    ensures
        s@ == sanitize(v@),
{
    let mut s = String::new();
    push_sanitized(&mut s, v);
    assert(s@ =~= sanitize(v@));
    s
}

/// `v` as an `ExecStart` word: sanitized, and in double quotes with `\`
/// and `"` escaped when it holds a space, quote or backslash.
pub fn escape_systemd_value(v: &str) -> (s: String)
    ensures
        s@ == escape(v@),
{
    let t = sanitize_unit_value(v);
    if crate::text::has_char(t.as_str(), ' ') || crate::text::has_char(t.as_str(), '"')
        || crate::text::has_char(t.as_str(), '\\') {
        let mut s = String::new();
        push_char(&mut s, '"');
        let n = t.as_str().unicode_len();
        let mut i: usize = 0;
        assert(t@.take(0) =~= Seq::<char>::empty());
        while i < n
            invariant
                n == t@.len(),
                i <= n,
                s@ == seq!['"'] + quote_escape(t@.take(i as int)),
            decreases n - i,
        {
            let c = t.as_str().get_char(i);
            let ghost before = s@;
            if c == '\\' {
                push_char(&mut s, '\\');
                push_char(&mut s, '\\');
            } else if c == '"' {
                push_char(&mut s, '\\');
                push_char(&mut s, '"');
            } else {
                push_char(&mut s, c);
            }
            proof {
                assert(t@.take(i + 1).drop_last() =~= t@.take(i as int));
                assert(t@.take(i + 1).last() == c);
                assert(s@ =~= before + quote_char(c));
            }
            i += 1;
        }
        assert(t@.take(n as int) =~= t@);
        push_char(&mut s, '"');
        s
    } else {
        t
    }
}

/// `<dep>.service` for each dependency of `svc`, separated by spaces.
fn deps_text(svc: &ServiceDefinition) -> (deps: String)
    ensures
        deps@ == unit_list(svc.depends_on@),
{
    let nd = svc.depends_on.len();
    let mut deps = String::new();
    let mut i: usize = 0;
    while i < nd
        invariant
            nd == svc.depends_on@.len(),
            i <= nd,
            deps@ == unit_list(svc.depends_on@.take(i as int)),
        decreases nd - i,
    {
        let ghost before = deps@;
        if i > 0 {
            push_str(&mut deps, " ");
        }
        push_str(&mut deps, svc.depends_on[i].as_str());
        push_str(&mut deps, ".service");
        proof {
            let t = svc.depends_on@.take(i + 1);
            assert(t.drop_last() =~= svc.depends_on@.take(i as int));
            assert(t.last() == svc.depends_on@[i as int]);
            if i == 0 {
                assert(deps@ =~= t[0]@ + ".service"@);
            } else {
                assert(deps@ =~= before + " "@ + t.last()@ + ".service"@);
            }
        }
        i += 1;
    }
    assert(svc.depends_on@.take(nd as int) =~= svc.depends_on@);
    deps
}

/// The `ExecStart=` value of `svc`.
fn exec_text(svc: &ServiceDefinition) -> (e: String)
    ensures
        e@ == exec_spec(*svc),
{
    let mut out = escape_systemd_value(svc.binary_path.as_str());
    let na = svc.args.len();
    if na > 0 {
        push_str(&mut out, " ");
        let mut args = String::new();
        let mut i: usize = 0;
        while i < na
            invariant
                na == svc.args@.len(),
                i <= na,
                args@ == escaped_args(svc.args@.take(i as int)),
            decreases na - i,
        {
            let ghost before = args@;
            if i > 0 {
                push_str(&mut args, " ");
            }
            let e = escape_systemd_value(svc.args[i].as_str());
            push_str(&mut args, e.as_str());
            proof {
                let t = svc.args@.take(i + 1);
                assert(t.drop_last() =~= svc.args@.take(i as int));
                assert(t.last() == svc.args@[i as int]);
                if i == 0 {
                    assert(args@ =~= escape(t[0]@));
                } else {
                    assert(args@ =~= before + " "@ + escape(t.last()@));
                }
            }
            i += 1;
        }
        assert(svc.args@.take(na as int) =~= svc.args@);
        push_str(&mut out, args.as_str());
    }
    out
}

/// The `Environment=` lines of `svc`.
fn env_text(svc: &ServiceDefinition) -> (env: String)
    ensures
        env@ == env_lines(svc.environment.items()),
{
    let ne = svc.environment.len();
    let mut env = String::new();
    let mut j: usize = 0;
    while j < ne
        invariant
            ne == svc.environment.items().len(),
            j <= ne,
            env@ == env_lines(svc.environment.items().take(j as int)),
        decreases ne - j,
    {
        let (k, v) = svc.environment.entry(j);
        let ghost before = env@;
        push_str(&mut env, "Environment=\"");
        push_sanitized(&mut env, k.as_str());
        push_str(&mut env, "=");
        push_sanitized(&mut env, v.as_str());
        push_str(&mut env, "\"\n");
        proof {
            let t = svc.environment.items().take(j + 1);
            assert(t.drop_last() =~= svc.environment.items().take(j as int));
            assert(t.last() == svc.environment.items()[j as int]);
            assert(env@ =~= before + "Environment=\""@ + sanitize(k@) + "="@ + sanitize(v@) + "\"\n"@);
        }
        j += 1;
    }
    assert(svc.environment.items().take(ne as int) =~= svc.environment.items());
    env
}

fn restart_text(svc: &ServiceDefinition) -> (t: String)
    ensures
        t@ == restart_lines(*svc),
{
    let mut out = owned("Restart=");
    match svc.restart_policy {
        RestartPolicy::Always => push_str(&mut out, "always"),
        RestartPolicy::OnFailure => push_str(&mut out, "on-failure"),
        RestartPolicy::Never => push_str(&mut out, "no"),
    }
    push_str(&mut out, "\n");
    push_str(&mut out, "RestartSec=");
    let rs = svc.restart_config.base_delay_ms / 1000;
    push_u64(&mut out, if rs >= 1 { rs } else { 1 });
    push_str(&mut out, "\n");
    assert(out@ =~= restart_lines(*svc));
    out
}

fn limit_text(svc: &ServiceDefinition) -> (t: String)
    ensures
        t@ == limit_line(*svc),
{
    let mut out = String::new();
    if svc.restart_config.max_restarts > 0 {
        push_str(&mut out, "StartLimitBurst=");
        push_u64(&mut out, svc.restart_config.max_restarts as u64);
        push_str(&mut out, "\n");
    }
    assert(out@ =~= limit_line(*svc));
    out
}

fn watchdog_text(svc: &ServiceDefinition) -> (t: String)
    requires
        svc.health_check matches Some(hc) ==> hc.interval_ms * hc.retries <= u64::MAX,
    ensures
        t@ == watchdog_line(*svc),
{
    let mut out = String::new();
    match &svc.health_check {
        Some(hc) => {
            let w = (hc.interval_ms * (hc.retries as u64)) / 1000;
            if w > 0 {
                push_str(&mut out, "WatchdogSec=");
                push_u64(&mut out, w);
                push_str(&mut out, "\n");
            }
        },
        None => {},
    }
    assert(out@ =~= watchdog_line(*svc));
    out
}

fn install_text(svc: &ServiceDefinition) -> (t: String)
    ensures
        t@ == install_lines(*svc),
{
    let mut out = owned("NotifyAccess=main\n");
    push_str(&mut out, "\n");
    push_str(&mut out, "[Install]\n");
    let mut graphical = false;
    let nm = svc.required_for_modes.len();
    let mut m: usize = 0;
    while m < nm
        invariant
            nm == svc.required_for_modes@.len(),
            m <= nm,
            graphical == exists|x: int| 0 <= x < m && svc.required_for_modes@[x] == BootMode::Desktop,
        decreases nm - m,
    {
        if svc.required_for_modes[m] == BootMode::Desktop {
            graphical = true;
        }
        m += 1;
    }
    if graphical {
        push_str(&mut out, "WantedBy=graphical.target\n");
    } else {
        push_str(&mut out, "WantedBy=multi-user.target\n");
    }
    assert(out@ =~= install_lines(*svc));
    out
}

/// The restart, watchdog and install lines of `svc`.
fn tail_text(svc: &ServiceDefinition) -> (t: String)
    requires
        svc.health_check matches Some(hc) ==> hc.interval_ms * hc.retries <= u64::MAX,
    ensures
        t@ == tail_spec(*svc),
{
    let mut out = restart_text(svc);
    let l = limit_text(svc);
    push_str(&mut out, l.as_str());
    let w = watchdog_text(svc);
    push_str(&mut out, w.as_str());
    let i = install_text(svc);
    push_str(&mut out, i.as_str());
    assert(out@ =~= tail_spec(*svc));
    out
}

/// The systemd `.service` unit of `svc`: its description and dependencies
/// (`After=` and `Requires=`), `Type=notify`, `ExecStart=` with escaped
/// words, its environment in name order, restart policy, delay (in whole
/// seconds, at least 1) and limit, a watchdog from its health check, and
/// the target it is wanted by. The environment lines come in name order,
/// since an environment keeps its names sorted. The health check's
/// interval times retries must fit in a `u64`.
pub fn generate_unit(svc: &ServiceDefinition) -> (unit: String)
    requires
        svc.health_check matches Some(hc) ==> hc.interval_ms * hc.retries <= u64::MAX,
    ensures
        unit@ == unit_spec(*svc),
        sorted_keys(svc.environment.items()),
{
    let _vars: usize = svc.environment.len();
    let mut out = owned("[Unit]\n");
    push_str(&mut out, "Description=");
    push_sanitized(&mut out, svc.description.as_str());
    push_str(&mut out, "\n");
    if svc.depends_on.len() > 0 {
        let deps = deps_text(svc);
        push_str(&mut out, "After=");
        push_str(&mut out, deps.as_str());
        push_str(&mut out, "\n");
        push_str(&mut out, "Requires=");
        push_str(&mut out, deps.as_str());
        push_str(&mut out, "\n");
    }
    push_str(&mut out, "\n");
    push_str(&mut out, "[Service]\n");
    push_str(&mut out, "Type=notify\n");
    push_str(&mut out, "ExecStart=");
    let e = exec_text(svc);
    push_str(&mut out, e.as_str());
    push_str(&mut out, "\n");
    let env = env_text(svc);
    push_str(&mut out, env.as_str());
    let t = tail_text(svc);
    push_str(&mut out, t.as_str());
    assert(out@ =~= unit_spec(*svc));
    out
}

/// The unit file name of `svc`: `<name>.service`.
pub fn generate_unit_filename(svc: &ServiceDefinition) -> (name: String)
    ensures
        name@ == svc.name@ + ".service"@,
{
    crate::text::concat2(svc.name.as_str(), ".service")
}

} // verus!

verus! {

/// A text without line breaks.
pub open spec fn one_line(s: Seq<char>) -> bool {
    forall|i: int| 0 <= i < s.len() ==> #[trigger] s[i] != '\n' && s[i] != '\r'
}

/// `s` is empty or ends with a newline.
pub open spec fn ends_line(s: Seq<char>) -> bool {
    s.len() == 0 || s.last() == '\n'
}

/// `s` holds no `=`.
pub open spec fn no_equals(s: Seq<char>) -> bool {
    forall|i: int| 0 <= i < s.len() ==> #[trigger] s[i] != '='
}

/// The key of a unit-file line: what comes before its first `=`, or the
/// whole line when it has none.
pub open spec fn line_key(l: Seq<char>) -> Seq<char> {
    l.take(first_index(l, '='))
}

/// The keys of the lines of a unit file, in order.
pub open spec fn unit_keys(t: Seq<char>) -> Seq<Seq<char>> {
    split_lines(t).map_values(|l: Seq<char>| line_key(l))
}

proof fn lemma_one_line_concat(a: Seq<char>, b: Seq<char>)
    requires
        one_line(a),
        one_line(b),
    ensures
        one_line(a + b),
{
    assert forall|i: int| 0 <= i < (a + b).len() implies #[trigger] (a + b)[i] != '\n' && (a + b)[i] != '\r' by {
        if i < a.len() {
            assert((a + b)[i] == a[i]);
        } else {
            assert((a + b)[i] == b[i - a.len()]);
        }
    }
}

proof fn lemma_quote_escape_one_line(t: Seq<char>)
    requires
        one_line(t),
    ensures
        one_line(quote_escape(t)),
    decreases t.len(),
{
    if t.len() > 0 {
        assert forall|i: int| 0 <= i < t.drop_last().len() implies #[trigger] t.drop_last()[i] != '\n'
            && t.drop_last()[i] != '\r' by {
            assert(t.drop_last()[i] == t[i]);
        }
        lemma_quote_escape_one_line(t.drop_last());
        assert(t[t.len() - 1] == t.last());
        lemma_one_line_concat(quote_escape(t.drop_last()), quote_char(t.last()));
    }
}

proof fn lemma_escape_one_line(s: Seq<char>)
    ensures
        one_line(escape(s)),
{
    lemma_sanitized_has_no_line_breaks(s);
    let t = sanitize(s);
    if t.contains(' ') || t.contains('"') || t.contains('\\') {
        lemma_quote_escape_one_line(t);
        lemma_one_line_concat(seq!['"'], quote_escape(t));
        lemma_one_line_concat(seq!['"'] + quote_escape(t), seq!['"']);
    }
}

proof fn lemma_escaped_args_one_line(args: Seq<String>)
    ensures
        one_line(escaped_args(args)),
    decreases args.len(),
{
    reveal_strlit(" ");
    if args.len() == 1 {
        lemma_escape_one_line(args[0]@);
    } else if args.len() > 1 {
        lemma_escaped_args_one_line(args.drop_last());
        lemma_escape_one_line(args.last()@);
        lemma_one_line_concat(escaped_args(args.drop_last()), " "@);
        lemma_one_line_concat(escaped_args(args.drop_last()) + " "@, escape(args.last()@));
    }
}

/// The `ExecStart=` value is one line, whatever the binary and arguments.
proof fn lemma_exec_one_line(svc: ServiceDefinition)
    ensures
        one_line(exec_spec(svc)),
{
    reveal_strlit(" ");
    lemma_escape_one_line(svc.binary_path@);
    if svc.args@.len() > 0 {
        lemma_escaped_args_one_line(svc.args@);
        lemma_one_line_concat(" "@, escaped_args(svc.args@));
        lemma_one_line_concat(escape(svc.binary_path@), " "@ + escaped_args(svc.args@));
    } else {
        assert(exec_spec(svc) =~= escape(svc.binary_path@));
    }
}

/// The keys of text after a complete line are those of its two parts.
proof fn lemma_keys_concat(a: Seq<char>, b: Seq<char>)
    requires
        ends_line(a),
    ensures
        unit_keys(a + b) == unit_keys(a) + unit_keys(b),
{
    lemma_split_lines_concat(a, b);
    assert(unit_keys(a + b) =~= unit_keys(a) + unit_keys(b));
}

/// A line without `=` is its own key.
proof fn lemma_plain_line(l: Seq<char>)
    requires
        one_line(l),
        no_equals(l),
    ensures
        unit_keys(l + "\n"@) == seq![l],
{
    reveal_strlit("\n");
    assert(l + "\n"@ =~= l + seq!['\n']);
    lemma_split_one_line(l);
    if l.len() > 0 {
        assert(l[l.len() - 1] == l.last());
    }
    assert(strip_cr(l) == l);
    lemma_first_index_concat(l, Seq::<char>::empty(), '=');
    assert(l + Seq::<char>::empty() =~= l);
    assert(line_key(l) =~= l);
    assert(unit_keys(l + "\n"@) =~= seq![l]);
}

/// A line `k=v`, where `k` holds no `=` and neither holds a line break,
/// has the key `k`.
proof fn lemma_key_line(k: Seq<char>, v: Seq<char>)
    requires
        one_line(k),
        one_line(v),
        no_equals(k),
    ensures
        unit_keys(k + "="@ + v + "\n"@) == seq![k],
{
    reveal_strlit("=");
    reveal_strlit("\n");
    let l = k + "="@ + v;
    assert(k + "="@ + v + "\n"@ =~= l + seq!['\n']);
    assert forall|i: int| 0 <= i < l.len() implies l[i] != '\n' by {
        if i < k.len() {
            assert(l[i] == k[i]);
        } else if i > k.len() {
            assert(l[i] == v[i - k.len() - 1]);
        }
    }
    lemma_split_one_line(l);
    if v.len() > 0 {
        assert(l.last() == v[v.len() - 1]);
    }
    assert(strip_cr(l) == l);
    assert(l =~= k + ("="@ + v));
    lemma_first_index_concat(k, "="@ + v, '=');
    assert(("="@ + v)[0] == '=');
    assert(line_key(l) =~= k);
    assert(unit_keys(k + "="@ + v + "\n"@) =~= seq![k]);
}

/// Every `Environment=` line has the key `Environment`, and the lines end
/// with a newline.
proof fn lemma_env_keys(items: Seq<(String, String)>)
    ensures
        unit_keys(env_lines(items)) == Seq::new(items.len(), |i: int| "Environment"@),
        ends_line(env_lines(items)),
    decreases items.len(),
{
    if items.len() == 0 {
        assert(split_lines(Seq::<char>::empty()) =~= Seq::<Seq<char>>::empty());
        assert(unit_keys(env_lines(items)) =~= Seq::new(items.len(), |i: int| "Environment"@));
    } else {
        reveal_strlit("Environment=\"");
        reveal_strlit("Environment");
        reveal_strlit("=");
        reveal_strlit("\"\n");
        reveal_strlit("\"");
        reveal_strlit("\n");
        let rest = items.drop_last();
        lemma_env_keys(rest);
        let k = sanitize(items.last().0@);
        let v = sanitize(items.last().1@);
        lemma_sanitized_has_no_line_breaks(items.last().0@);
        lemma_sanitized_has_no_line_breaks(items.last().1@);
        let val = "\""@ + k + "="@ + v + "\""@;
        lemma_one_line_concat("\""@, k);
        lemma_one_line_concat("\""@ + k, "="@);
        lemma_one_line_concat("\""@ + k + "="@, v);
        lemma_one_line_concat("\""@ + k + "="@ + v, "\""@);
        let line = "Environment"@ + "="@ + val + "\n"@;
        assert(env_lines(items) =~= env_lines(rest) + line);
        lemma_key_line("Environment"@, val);
        lemma_keys_concat(env_lines(rest), line);
        assert(unit_keys(env_lines(items)) =~= Seq::new(items.len(), |i: int| "Environment"@));
        assert(env_lines(items).last() == '\n');
    }
}

/// The `After=` and `Requires=` lines of `svc`, when it has dependencies.
pub open spec fn dep_lines(svc: ServiceDefinition) -> Seq<char> {
    let deps = unit_list(svc.depends_on@);
    if svc.depends_on@.len() > 0 {
        "After="@ + deps + "\n"@ + "Requires="@ + deps + "\n"@
    } else {
        seq![]
    }
}

/// The keys of the fixed lines and of the description and `ExecStart=`
/// lines.
proof fn lemma_fixed_line_keys(x: Seq<char>, y: Seq<char>)
    requires
        one_line(x),
        one_line(y),
    ensures
        unit_keys("[Unit]\n"@) == seq!["[Unit]"@],
        unit_keys("Description="@ + x + "\n"@) == seq!["Description"@],
        unit_keys("\n"@) == seq![Seq::<char>::empty()],
        unit_keys("[Service]\n"@) == seq!["[Service]"@],
        unit_keys("Type=notify\n"@) == seq!["Type"@],
        unit_keys("ExecStart="@ + y + "\n"@) == seq!["ExecStart"@],
        ends_line("[Unit]\n"@),
        ends_line("Description="@ + x + "\n"@),
        ends_line("\n"@),
        ends_line("[Service]\n"@),
        ends_line("Type=notify\n"@),
        ends_line("ExecStart="@ + y + "\n"@),
{
    reveal_strlit("[Unit]\n");
    reveal_strlit("[Unit]");
    reveal_strlit("Description=");
    reveal_strlit("Description");
    reveal_strlit("=");
    reveal_strlit("\n");
    reveal_strlit("[Service]\n");
    reveal_strlit("[Service]");
    reveal_strlit("Type=notify\n");
    reveal_strlit("Type");
    reveal_strlit("notify");
    reveal_strlit("ExecStart=");
    reveal_strlit("ExecStart");
    assert("[Unit]\n"@ =~= "[Unit]"@ + "\n"@);
    lemma_plain_line("[Unit]"@);
    assert("Description="@ + x + "\n"@ =~= "Description"@ + "="@ + x + "\n"@);
    lemma_key_line("Description"@, x);
    assert("\n"@ =~= Seq::<char>::empty() + "\n"@);
    lemma_plain_line(Seq::<char>::empty());
    assert("[Service]\n"@ =~= "[Service]"@ + "\n"@);
    lemma_plain_line("[Service]"@);
    assert("Type=notify\n"@ =~= "Type"@ + "="@ + "notify"@ + "\n"@);
    lemma_key_line("Type"@, "notify"@);
    assert("ExecStart="@ + y + "\n"@ =~= "ExecStart"@ + "="@ + y + "\n"@);
    lemma_key_line("ExecStart"@, y);
}

/// Twelve pieces joined left to right, regrouped into whole lines.
proof fn lemma_regroup(
    p1: Seq<char>,
    p2: Seq<char>,
    p3: Seq<char>,
    p4: Seq<char>,
    p5: Seq<char>,
    p6: Seq<char>,
    p7: Seq<char>,
    p8: Seq<char>,
    p9: Seq<char>,
    p10: Seq<char>,
    p11: Seq<char>,
    p12: Seq<char>,
)
    ensures
        p1 + p2 + p3 + p4 + p5 + p6 + p7 + p8 + p9 + p10 + p11 + p12 == p1 + ((p2 + p3 + p4) + (p5 + (p6 + (p7 + (p8
            + ((p9 + p10 + p11) + p12)))))),
{
    let r = (p9 + p10 + p11) + p12;
    assert(p1 + p2 + p3 + p4 + p5 + p6 + p7 + p8 + p9 + p10 + p11 + p12 =~= (p1 + p2 + p3 + p4 + p5 + p6 + p7 + p8) + r);
    let q = p8 + r;
    assert((p1 + p2 + p3 + p4 + p5 + p6 + p7 + p8) + r =~= (p1 + p2 + p3 + p4 + p5 + p6 + p7) + q);
    let o = p5 + (p6 + (p7 + q));
    assert((p1 + p2 + p3 + p4 + p5 + p6 + p7) + q =~= (p1 + p2 + p3 + p4) + o);
    assert((p1 + p2 + p3 + p4) + o =~= p1 + ((p2 + p3 + p4) + o));
}

/// The unit file as a run of whole lines: header, description,
/// dependencies, the `[Service]` lines, `ExecStart=`, environment and
/// tail.
proof fn lemma_unit_blocks(svc: ServiceDefinition)
    ensures
        unit_spec(svc) == "[Unit]\n"@ + (("Description="@ + sanitize(svc.description@) + "\n"@) + (dep_lines(svc)
            + ("\n"@ + ("[Service]\n"@ + ("Type=notify\n"@ + (("ExecStart="@ + exec_spec(svc) + "\n"@) + (
        env_lines(svc.environment.items()) + tail_spec(svc)))))))),
{
    lemma_regroup(
        "[Unit]\n"@,
        "Description="@,
        sanitize(svc.description@),
        "\n"@,
        dep_lines(svc),
        "\n"@,
        "[Service]\n"@,
        "Type=notify\n"@,
        "ExecStart="@,
        exec_spec(svc),
        "\n"@,
        env_lines(svc.environment.items()) + tail_spec(svc),
    );
    assert(unit_spec(svc) == "[Unit]\n"@ + "Description="@ + sanitize(svc.description@) + "\n"@ + dep_lines(svc)
        + "\n"@ + "[Service]\n"@ + "Type=notify\n"@ + "ExecStart="@ + exec_spec(svc) + "\n"@ + (env_lines(
        svc.environment.items(),
    ) + tail_spec(svc)));
}

/// The line keys of a unit file: `[Unit]`, `Description`, those of the
/// dependency lines, an empty line, `[Service]`, `Type`, `ExecStart`, one
/// `Environment` per variable, and those of the restart, watchdog and
/// install lines. Neither the description, nor the binary, its arguments
/// or the environment's names and values, enter into them.
proof fn lemma_unit_keys(svc: ServiceDefinition)
    ensures
        unit_keys(unit_spec(svc)) == seq!["[Unit]"@, "Description"@] + unit_keys(dep_lines(svc)) + seq![
            Seq::<char>::empty(),
            "[Service]"@,
            "Type"@,
            "ExecStart"@,
        ] + Seq::new(svc.environment.items().len(), |i: int| "Environment"@) + unit_keys(tail_spec(svc)),
{
    let x = sanitize(svc.description@);
    let y = exec_spec(svc);
    let d = dep_lines(svc);
    let e = env_lines(svc.environment.items());
    let t = tail_spec(svc);
    let b1 = "[Unit]\n"@;
    let b2 = "Description="@ + x + "\n"@;
    let b4 = "\n"@;
    let b5 = "[Service]\n"@;
    let b6 = "Type=notify\n"@;
    let b7 = "ExecStart="@ + y + "\n"@;
    lemma_unit_blocks(svc);
    lemma_sanitized_has_no_line_breaks(svc.description@);
    lemma_exec_one_line(svc);
    lemma_fixed_line_keys(x, y);
    lemma_env_keys(svc.environment.items());
    if svc.depends_on@.len() > 0 {
        reveal_strlit("\n");
        assert(d.last() == '\n');
    }
    lemma_keys_concat(e, t);
    lemma_keys_concat(b7, e + t);
    lemma_keys_concat(b6, b7 + (e + t));
    lemma_keys_concat(b5, b6 + (b7 + (e + t)));
    lemma_keys_concat(b4, b5 + (b6 + (b7 + (e + t))));
    lemma_keys_concat(d, b4 + (b5 + (b6 + (b7 + (e + t)))));
    lemma_keys_concat(b2, d + (b4 + (b5 + (b6 + (b7 + (e + t))))));
    lemma_keys_concat(b1, b2 + (d + (b4 + (b5 + (b6 + (b7 + (e + t)))))));
    assert(unit_keys(unit_spec(svc)) =~= seq!["[Unit]"@, "Description"@] + unit_keys(dep_lines(svc)) + seq![
        Seq::<char>::empty(),
        "[Service]"@,
        "Type"@,
        "ExecStart"@,
    ] + Seq::new(svc.environment.items().len(), |i: int| "Environment"@) + unit_keys(tail_spec(svc)));
}

/// No value can change the key of any line of a unit file: two services
/// that differ only in their description, binary, arguments and the names
/// and values of their environment variables (not their number) have unit
/// files whose lines carry the same keys, in the same order. A value with
/// a line break or a `$` in it is written on its own line, sanitized.
pub proof fn lemma_unit_keys_independent_of_values(a: ServiceDefinition, b: ServiceDefinition)
    requires
        a.depends_on@ == b.depends_on@,
        a.restart_policy == b.restart_policy,
        a.restart_config == b.restart_config,
        a.health_check == b.health_check,
        a.required_for_modes@ == b.required_for_modes@,
        a.environment.items().len() == b.environment.items().len(),
    ensures
        unit_keys(unit_spec(a)) == unit_keys(unit_spec(b)),
{
    lemma_unit_keys(a);
    lemma_unit_keys(b);
    assert(dep_lines(a) == dep_lines(b));
    assert(tail_spec(a) == tail_spec(b));
    assert(Seq::new(a.environment.items().len(), |i: int| "Environment"@) =~= Seq::new(
        b.environment.items().len(),
        |i: int| "Environment"@,
    ));
}

} // verus!
