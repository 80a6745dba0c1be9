//! Security helpers: socket activation environment, descriptions of
//! seccomp and Landlock configurations, capability dropping commands, and
//! emergency shell authentication.

use vstd::prelude::*;

use std::collections::hash_map::DefaultHasher;
use std::hash::{BuildHasher, BuildHasherDefault};

use crate::text::{dec, owned, push_padded_radix, push_str, push_u64, radix, zero_pad};
use crate::types::{
    CapabilityConfig, EmergencyShellConfig, LandlockConfig, LandlockRule, SafeCommand, SeccompConfig,
    SocketActivationConfig, command_is, setpriv_args,
};
use vstd::string::StringSliceAdditionalSpecFns;

verus! {

// ---------------------------------------------------------------------------
// Socket activation
// ---------------------------------------------------------------------------

/// The environment of the sd_listen_fds protocol: `LISTEN_FDS=<number of
/// sockets>` and `LISTEN_PID=<pid>`.
pub fn generate_socket_env(config: &SocketActivationConfig, pid: u32) -> (v: Vec<(String, String)>)
    ensures
        v@.len() == 2,
        v@[0].0@ == "LISTEN_FDS"@,
        v@[0].1@ == dec(config.sockets@.len()),
        v@[1].0@ == "LISTEN_PID"@,
        v@[1].1@ == dec(pid as nat),
{
    config.env_vars(pid)
}

// ---------------------------------------------------------------------------
// Seccomp
// ---------------------------------------------------------------------------

/// The description of a seccomp configuration.
pub open spec fn seccomp_text(config: SeccompConfig) -> Seq<char> {
    match config {
        SeccompConfig::Basic => "seccomp: basic filter (20 safe syscalls allowed, all others killed)"@,
        SeccompConfig::Custom { allow, deny } => "seccomp: custom filter — allow "@ + dec(allow@.len())
            + " syscalls"@ + (if deny@.len() > 0 {
            ", "@ + dec(deny@.len()) + " explicit denials"@
        } else {
            seq![]
        }),
    }
}

/// A one-line description of a seccomp configuration.
pub fn seccomp_description(config: &SeccompConfig) -> (s: String)
    ensures
        s@ == seccomp_text(*config),
{
    match config {
        SeccompConfig::Basic => owned("seccomp: basic filter (20 safe syscalls allowed, all others killed)"),
        SeccompConfig::Custom { allow, deny } => {
            let mut s = owned("seccomp: custom filter — allow ");
            push_u64(&mut s, allow.len() as u64);
            push_str(&mut s, " syscalls");
            let ghost head = s@;
            if deny.len() > 0 {
                push_str(&mut s, ", ");
                push_u64(&mut s, deny.len() as u64);
                push_str(&mut s, " explicit denials");
                assert(s@ =~= head + (", "@ + dec(deny@.len()) + " explicit denials"@));
            } else {
                assert(s@ =~= head + Seq::<char>::empty());
            }
            s
        },
    }
}

// ---------------------------------------------------------------------------
// Landlock
// ---------------------------------------------------------------------------

/// The lines of a Landlock description after the first: one
/// `\n  <path> → <access>` per rule.
pub open spec fn landlock_lines(rules: Seq<LandlockRule>) -> Seq<char>
    decreases rules.len(),
{
    if rules.len() == 0 {
        seq![]
    } else {
        landlock_lines(rules.drop_last()) + "\n  "@ + rules.last().path@ + " → "@ + rules.last().access.text()
    }
}

/// A description of a Landlock configuration: the number of rules, then
/// one line per rule.
pub fn landlock_description(config: &LandlockConfig) -> (s: String)
    ensures
        s@ == "landlock: "@ + dec(config.rules@.len()) + " filesystem rules"@ + landlock_lines(config.rules@),
{
    let mut s = owned("landlock: ");
    push_u64(&mut s, config.rules.len() as u64);
    push_str(&mut s, " filesystem rules");
    let ghost head = s@;
    let n = config.rules.len();
    let mut i: usize = 0;
    assert(config.rules@.subrange(0, 0) =~= Seq::<LandlockRule>::empty());
    while i < n
        invariant
            n == config.rules@.len(),
            i <= n,
            s@ == head + landlock_lines(config.rules@.subrange(0, i as int)),
        decreases n - i,
    {
        let rule = &config.rules[i];
        push_str(&mut s, "\n  ");
        push_str(&mut s, rule.path.as_str());
        push_str(&mut s, " → ");
        let a = rule.access.to_string();
        push_str(&mut s, a.as_str());
        proof {
            let post = config.rules@.subrange(0, i + 1);
            assert(post.drop_last() =~= config.rules@.subrange(0, i as int));
            assert(post.last() == config.rules@[i as int]);
            assert(s@ =~= head + landlock_lines(post));
        }
        i += 1;
    }
    assert(config.rules@.subrange(0, n as int) =~= config.rules@);
    s
}

// ---------------------------------------------------------------------------
// Capabilities
// ---------------------------------------------------------------------------

/// A `setpriv` command that drops the configured capabilities and execs
/// `binary` with `args`, each argument a separate element (no shell).
pub fn to_capability_commands(config: &CapabilityConfig, binary: &str, args: &[String]) -> (c: SafeCommand)
    ensures
        command_is(c, "setpriv"@, setpriv_args(config.drop@, binary@, args@.map_values(|a: String| a@))),
{
    config.to_setpriv_command(binary, args)
}

// ---------------------------------------------------------------------------
// Emergency shell authentication
// ---------------------------------------------------------------------------

/// The two words of the std `DefaultHasher` digest of `data`: that of the
/// bytes alone, and that of the bytes followed by their number.
pub uninterp spec fn default_hash_pair(data: Seq<u8>) -> (u64, u64);

/// std's `BuildHasherDefault`, which builds hashers of type `H`.
#[verifier::external_type_specification]
#[verifier::external_body]
#[verifier::reject_recursive_types(H)]
pub struct ExBuildHasherDefault<H>(BuildHasherDefault<H>);

/// A builder of fresh `DefaultHasher`s, from std's
/// `BuildHasherDefault::default`. It holds no state; nothing is claimed of
/// it.
#[verifier::external_body]
fn default_hasher_builder() -> (b: BuildHasherDefault<DefaultHasher>) {
    BuildHasherDefault::<DefaultHasher>::default()
}

/// Hashes `data`, then `data` followed by its length, each with a fresh
/// `DefaultHasher` from `build`, through std's `BuildHasher::hash_one`; the
/// contract names the pair and says nothing more of it (the algorithm is
/// std's and not fixed across releases).
#[verifier::external_body]
fn hash_words(build: &BuildHasherDefault<DefaultHasher>, data: &[u8]) -> (r: (u64, u64))
    ensures
        r == default_hash_pair(data@),
{
    (build.hash_one(data), build.hash_one((data, data.len())))
}

/// The text of a password hash: both words of the digest as 16 lower-case
/// hex digits each.
pub open spec fn hex_digest(words: (u64, u64)) -> Seq<char> {
    zero_pad(radix(words.0 as nat, 16), 16) + zero_pad(radix(words.1 as nat, 16), 16)
}

/// The hex-encoded hash of `data` that emergency shell passwords are
/// stored as. Not a cryptographic hash.
pub fn password_hash_hex(data: &[u8]) -> (s: String)
    ensures
        s@ == hex_digest(default_hash_pair(data@)),
{
    let build = default_hasher_builder();
    let (h1, h2) = hash_words(&build, data);
    let mut s = String::new();
    push_padded_radix(&mut s, h1, 16, 16);
    push_padded_radix(&mut s, h2, 16, 16);
    s
}

/// Whether `a` and `b` hold the same bytes, in time that depends only on
/// their lengths.
pub fn constant_time_eq(a: &[u8], b: &[u8]) -> (r: bool)
    ensures
        r == (a@ == b@),
{
    if a.len() != b.len() {
        return false;
    }
    let n = a.len();
    let mut diff: u8 = 0;
    let mut i: usize = 0;
    while i < n
        invariant
            n == a@.len(),
            n == b@.len(),
            i <= n,
            (diff == 0) == (forall|k: int| 0 <= k < i ==> a@[k] == b@[k]),
        decreases n - i,
    {
        let x = a[i];
        let y = b[i];
        let d = diff;
        let nd = d | (x ^ y);
        assert((nd == 0) == (d == 0 && x == y)) by (bit_vector)
            requires
                nd == d | (x ^ y),
        ;
        diff = nd;
        proof {
            if diff == 0 {
                assert forall|k: int| 0 <= k < i + 1 implies a@[k] == b@[k] by {
                    if k < i {
                    }
                }
            } else if d == 0 {
                assert(a@[i as int] != b@[i as int]);
            }
        }
        i += 1;
    }
    assert(a@ =~= b@ <==> diff == 0);
    diff == 0
}

/// Whether emergency shell access is granted: always when no password is
/// required or none is configured, else when the hash of `password_input`
/// matches the stored hash (compared in constant time).
pub fn verify_emergency_auth(config: &EmergencyShellConfig, password_input: &str) -> (r: bool)
    ensures
        r == (!config.require_auth || config.auth_password_hash is None || config.auth_password_hash->Some_0@
            == hex_digest(default_hash_pair(password_input.spec_bytes()))),
{
    if !config.require_auth {
        return true;
    }
    match &config.auth_password_hash {
        None => true,
        Some(stored) => {
            let input_hash = password_hash_hex(password_input.as_bytes());
            let r = constant_time_eq(input_hash.as_str().as_bytes(), stored.as_str().as_bytes());
            proof {
                vstd::utf8::encode_utf8_decode_utf8(input_hash@);
                vstd::utf8::encode_utf8_decode_utf8(stored@);
            }
            r
        },
    }
}

} // verus!
