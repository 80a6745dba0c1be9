//! Edge boot: the read-only root filesystem, dm-verity verification, LUKS
//! unlocking, and the checks on how an edge boot went.
//!
//! The commands built here are run outside this library; the outcome of
//! each run is handed back to the functions that record it.

use vstd::prelude::*;

use crate::tmpfiles::{command_view, CommandView};
use crate::text::{concat2, contains_str, contains_sub, dec, owned, push_char, push_str, push_u64, starts_with};
use crate::textproc::{is_ws, lines_of, nth_word, parse_u64, split_lines, trim, trim_str, unsigned_text, words};
use crate::types::{EdgeBootConfig, SafeCommand};
use vstd::string::StringSliceAdditionalSpecFns;

verus! {

fn command(binary: &str, args: Vec<String>) -> (c: SafeCommand)
    ensures
        command_view(c) == (binary@, args@.map_values(|a: String| a@)),
{
    SafeCommand { binary: owned(binary), args }
}

/// The commands that lock the root filesystem read-only with tmpfs
/// overlays for `/tmp`, `/var/run`, `/var/log` and `/var/tmp`.
pub open spec fn readonly_commands() -> Seq<CommandView> {
    seq![
        ("mount"@, seq!["-o"@, "remount,ro"@, "/"@]),
        ("mount"@, seq!["-t"@, "tmpfs"@, "tmpfs"@, "/tmp"@, "-o"@, "size=64M,noexec,nosuid"@]),
        ("mount"@, seq!["-t"@, "tmpfs"@, "tmpfs"@, "/var/run"@, "-o"@, "size=16M,nosuid"@]),
        ("mount"@, seq!["-t"@, "tmpfs"@, "tmpfs"@, "/var/log"@, "-o"@, "size=32M,nosuid"@]),
        ("mount"@, seq!["-t"@, "tmpfs"@, "tmpfs"@, "/var/tmp"@, "-o"@, "size=16M,noexec,nosuid"@]),
    ]
}

fn tmpfs(target: &str, options: &str) -> (c: SafeCommand)
    ensures
        command_view(c) == ("mount"@, seq!["-t"@, "tmpfs"@, "tmpfs"@, target@, "-o"@, options@]),
{
    let args = vec![owned("-t"), owned("tmpfs"), owned("tmpfs"), owned(target), owned("-o"), owned(options)];
    assert(args@.map_values(|a: String| a@) =~= seq!["-t"@, "tmpfs"@, "tmpfs"@, target@, "-o"@, options@]);
    command("mount", args)
}

/// The commands that remount `/` read-only and put writable tmpfs overlays
/// on `/tmp`, `/var/run`, `/var/log` and `/var/tmp` (without exec on `/tmp`
/// and `/var/tmp`).
pub fn configure_readonly_rootfs() -> (cmds: Vec<SafeCommand>)
    ensures
        cmds@.map_values(|c: SafeCommand| command_view(c)) == readonly_commands(),
{
    let args = vec![owned("-o"), owned("remount,ro"), owned("/")];
    assert(args@.map_values(|a: String| a@) =~= seq!["-o"@, "remount,ro"@, "/"@]);
    let cmds = vec![
        command("mount", args),
        tmpfs("/tmp", "size=64M,noexec,nosuid"),
        tmpfs("/var/run", "size=16M,nosuid"),
        tmpfs("/var/log", "size=32M,nosuid"),
        tmpfs("/var/tmp", "size=16M,noexec,nosuid"),
    ];
    assert(cmds@.map_values(|c: SafeCommand| command_view(c)) =~= readonly_commands());
    cmds
}

/// The number of UTF-8 bytes of `c`.
pub open spec fn width(c: char) -> nat {
    let v = c as u32;
    if v < 0x80 {
        1
    } else if v < 0x800 {
        2
    } else if v < 0x10000 {
        3
    } else {
        4
    }
}

/// The longest prefix of `s` whose UTF-8 encoding takes at most `n` bytes.
pub open spec fn byte_prefix(s: Seq<char>, n: int) -> Seq<char>
    decreases s.len(),
{
    if s.len() == 0 || width(s[0]) > n {
        seq![]
    } else {
        seq![s[0]] + byte_prefix(s.drop_first(), n - width(s[0]))
    }
}

/// The number of UTF-8 bytes of `s`.
pub open spec fn byte_len(s: Seq<char>) -> nat
    decreases s.len(),
{
    if s.len() == 0 {
        0
    } else {
        width(s[0]) + byte_len(s.drop_first())
    }
}

/// The first `n` bytes of `s` end on a character boundary (or `s` is
/// shorter), so that slicing `s` there does not panic.
pub open spec fn boundary_at(s: Seq<char>, n: int) -> bool {
    byte_len(s) <= n || byte_len(byte_prefix(s, n)) == n
}

/// A device path character: ASCII letter or digit, `/`, `-`, `_` or `.`.
pub open spec fn device_char(c: char) -> bool {
    ('a' <= c && c <= 'z') || ('A' <= c && c <= 'Z') || ('0' <= c && c <= '9') || c == '/' || c == '-'
        || c == '_' || c == '.'
}

/// The error for device path `p`, if it is not a plain `/dev/` path: empty,
/// holding `..`, outside `/dev/` (quoting its first 20 bytes), or with
/// other characters.
pub open spec fn device_fault(p: Seq<char>) -> Option<Seq<char>> {
    if p.len() == 0 {
        Some("device path cannot be empty"@)
    } else if contains_sub(p, ".."@) {
        Some("device path must not contain '..' components"@)
    } else if !(p.len() >= 5 && p.take(5) == "/dev/"@) {
        Some("device path must start with /dev/, got: "@ + byte_prefix(p, 20))
    } else if !(forall|i: int| 0 <= i < p.len() ==> device_char(#[trigger] p[i])) {
        Some("device path contains invalid characters"@)
    } else {
        None
    }
}

/// Checking device path `p` does not panic: when it is quoted, its first
/// 20 bytes end on a character boundary.
pub open spec fn device_check_ok(p: Seq<char>) -> bool {
    p.len() == 0 || contains_sub(p, ".."@) || (p.len() >= 5 && p.take(5) == "/dev/"@) || boundary_at(p, 20)
}

proof fn lemma_byte_prefix_step(s: Seq<char>, i: int, n: int)
    requires
        0 <= i < s.len(),
        byte_prefix(s, n) == s.take(i) + byte_prefix(s.skip(i), n - byte_len(s.take(i))),
        width(s[i]) <= n - byte_len(s.take(i)),
    ensures
        byte_prefix(s, n) == s.take(i + 1) + byte_prefix(s.skip(i + 1), n - byte_len(s.take(i + 1))),
{
    let t = s.skip(i);
    assert(t[0] == s[i]);
    assert(t.drop_first() =~= s.skip(i + 1));
    lemma_byte_len_push(s.take(i), s[i]);
    assert(s.take(i + 1) =~= s.take(i).push(s[i]));
    assert(s.take(i) + (seq![s[i]] + byte_prefix(s.skip(i + 1), n - byte_len(s.take(i)) - width(s[i])))
        =~= s.take(i + 1) + byte_prefix(s.skip(i + 1), n - byte_len(s.take(i + 1))));
}

proof fn lemma_byte_len_push(s: Seq<char>, c: char)
    ensures
        byte_len(s.push(c)) == byte_len(s) + width(c),
    decreases s.len(),
{
    if s.len() > 0 {
        assert(s.push(c).drop_first() =~= s.drop_first().push(c));
        lemma_byte_len_push(s.drop_first(), c);
        assert(s.push(c)[0] == s[0]);
        assert(byte_len(s.push(c)) == width(s[0]) + byte_len(s.drop_first().push(c)));
    } else {
        assert(s.push(c).drop_first() =~= Seq::<char>::empty());
        assert(s.push(c)[0] == c);
        assert(byte_len(Seq::<char>::empty()) == 0);
        assert(byte_len(s.push(c)) == width(c) + byte_len(s.push(c).drop_first()));
    }
}

/// The UTF-8 width of `c`.
fn width_exec(c: char) -> (w: usize)
    ensures
        w == width(c),
{
    let v = c as u32;
    if v < 0x80 {
        1
    } else if v < 0x800 {
        2
    } else if v < 0x10000 {
        3
    } else {
        4
    }
}

/// The first 20 bytes of `p`, which must end on a character boundary.
fn prefix20(p: &str) -> (s: String)
    requires
        boundary_at(p@, 20),
    ensures
        s@ == byte_prefix(p@, 20),
{
    let n = p.unicode_len();
    let mut s = String::new();
    let mut used: usize = 0;
    let mut i: usize = 0;
    assert(p@.take(0) =~= Seq::<char>::empty());
    assert(p@.skip(0) =~= p@);
    while i < n && used + width_exec(p.get_char(i)) <= 20
        invariant
            n == p@.len(),
            i <= n,
            used == byte_len(p@.take(i as int)),
            used <= 20,
            s@ == p@.take(i as int),
            byte_prefix(p@, 20) == p@.take(i as int) + byte_prefix(p@.skip(i as int), 20 - used),
        decreases n - i,
    {
        let c = p.get_char(i);
        proof {
            lemma_byte_prefix_step(p@, i as int, 20);
            lemma_byte_len_push(p@.take(i as int), c);
            assert(p@.take(i + 1) =~= p@.take(i as int).push(c));
        }
        used = used + width_exec(c);
        push_char(&mut s, c);
        i += 1;
    }
    proof {
        if i < n {
            assert(p@.skip(i as int)[0] == p@[i as int]);
            assert(byte_prefix(p@.skip(i as int), 20 - used) =~= Seq::<char>::empty());
        } else {
            assert(p@.skip(i as int) =~= Seq::<char>::empty());
        }
        assert(byte_prefix(p@, 20) =~= p@.take(i as int));
    }
    s
}

/// The bytes of `s` are those of its first `i` characters and of the rest.
proof fn lemma_byte_len_split(s: Seq<char>, i: int)
    requires
        0 <= i <= s.len(),
    ensures
        byte_len(s) == byte_len(s.take(i)) + byte_len(s.skip(i)),
    decreases i,
{
    if i == 0 {
        assert(s.take(0) =~= Seq::<char>::empty());
        assert(s.skip(0) =~= s);
    } else {
        let t = s.drop_first();
        lemma_byte_len_split(t, i - 1);
        assert(s.take(i).drop_first() =~= t.take(i - 1));
        assert(s.take(i)[0] == s[0]);
        assert(s.skip(i) =~= t.skip(i - 1));
    }
}

/// Whether the first 20 bytes of `p` end on a character boundary (or `p`
/// is shorter).
fn boundary20(p: &str) -> (b: bool)
    ensures
        b == boundary_at(p@, 20),
{
    let n = p.unicode_len();
    let mut used: usize = 0;
    let mut i: usize = 0;
    assert(p@.take(0) =~= Seq::<char>::empty());
    assert(p@.skip(0) =~= p@);
    while i < n && used + width_exec(p.get_char(i)) <= 20
        invariant
            n == p@.len(),
            i <= n,
            used == byte_len(p@.take(i as int)),
            used <= 20,
            byte_prefix(p@, 20) == p@.take(i as int) + byte_prefix(p@.skip(i as int), 20 - used),
        decreases n - i,
    {
        let c = p.get_char(i);
        proof {
            lemma_byte_prefix_step(p@, i as int, 20);
            lemma_byte_len_push(p@.take(i as int), c);
            assert(p@.take(i + 1) =~= p@.take(i as int).push(c));
        }
        used = used + width_exec(c);
        i += 1;
    }
    proof {
        lemma_byte_len_split(p@, i as int);
        if i < n {
            let t = p@.skip(i as int);
            assert(t[0] == p@[i as int]);
            assert(byte_prefix(t, 20 - used) =~= Seq::<char>::empty());
            assert(byte_prefix(p@, 20) =~= p@.take(i as int));
            assert(byte_len(t) == width(t[0]) + byte_len(t.drop_first()));
        } else {
            assert(p@.take(i as int) =~= p@);
            assert(p@.skip(i as int) =~= Seq::<char>::empty());
        }
    }
    i == n || used == 20
}

/// Whether checking device path `path` goes through without a panic: an
/// error that quotes its first 20 bytes finds them ending on a character
/// boundary.
pub fn device_check_passes(path: &str) -> (b: bool)
    ensures
        b == device_check_ok(path@),
{
    proof {
        reveal_strlit("/dev/");
    }
    if path.unicode_len() == 0 || contains_str(path, "..") {
        return true;
    }
    if starts_with(path, "/dev/") {
        assert(path@.take(5) =~= path@.subrange(0, 5));
        return true;
    }
    proof {
        if path@.len() >= 5 && path@.take(5) == "/dev/"@ {
            assert(path@.subrange(0, 5) =~= path@.take(5));
        }
    }
    boundary20(path)
}

/// Checks that `path` is a plain device path under `/dev/`.
fn validate_device_path(path: &str) -> (r: Result<(), String>)
    requires
        device_check_ok(path@),
    ensures
        match device_fault(path@) {
            Some(m) => r matches Err(e) && e@ == m,
            None => r is Ok,
        },
{
    if path.unicode_len() == 0 {
        return Err(owned("device path cannot be empty"));
    }
    if contains_str(path, "..") {
        return Err(owned("device path must not contain '..' components"));
    }
    if !starts_with(path, "/dev/") {
        proof {
            reveal_strlit("/dev/");
            if path@.len() >= 5 && path@.take(5) == "/dev/"@ {
                assert(path@.subrange(0, 5) =~= path@.take(5));
            }
        }
        let p = prefix20(path);
        return Err(concat2("device path must start with /dev/, got: ", p.as_str()));
    }
    proof {
        reveal_strlit("/dev/");
    }
    let n = path.unicode_len();
    let mut i: usize = 0;
    assert(path@.take(5) =~= path@.subrange(0, 5));
    while i < n
        invariant
            n == path@.len(),
            i <= n,
            path@.len() >= 5 && path@.take(5) == "/dev/"@,
            !contains_sub(path@, ".."@),
            forall|k: int| 0 <= k < i ==> device_char(#[trigger] path@[k]),
        decreases n - i,
    {
        let c = path.get_char(i);
        if !(('a' <= c && c <= 'z') || ('A' <= c && c <= 'Z') || ('0' <= c && c <= '9') || c == '/'
            || c == '-' || c == '_' || c == '.') {
            assert(!device_char(path@[i as int]));
            return Err(owned("device path contains invalid characters"));
        }
        i += 1;
    }
    Ok(())
}

/// An ASCII hex digit.
pub open spec fn hex_char(c: char) -> bool {
    ('0' <= c && c <= '9') || ('a' <= c && c <= 'f') || ('A' <= c && c <= 'F')
}

/// The error for the dm-verity parameters, if any: an empty one, a root
/// hash that is not 64 bytes, a root hash with a non-hex character, or a
/// device path fault.
pub open spec fn verity_fault(root: Seq<char>, hash_dev: Seq<char>, root_hash: &str) -> Option<Seq<char>> {
    if root.len() == 0 || hash_dev.len() == 0 || root_hash@.len() == 0 {
        Some("dm-verity parameters cannot be empty"@)
    } else if root_hash.spec_bytes().len() as usize != 64 {
        Some("Root hash must be 64 hex characters (SHA-256)"@)
    } else if !(forall|i: int| 0 <= i < root_hash@.len() ==> hex_char(#[trigger] root_hash@[i])) {
        Some("Root hash must contain only hex characters (0-9, a-f)"@)
    } else if device_fault(root) is Some {
        device_fault(root)
    } else {
        device_fault(hash_dev)
    }
}

/// Building the dm-verity commands does not panic on these parameters.
pub open spec fn verity_check_ok(root: Seq<char>, hash_dev: Seq<char>, root_hash: &str) -> bool {
    (root.len() == 0 || hash_dev.len() == 0 || root_hash@.len() == 0 || root_hash.spec_bytes().len()
        as usize != 64 || !(forall|i: int| 0 <= i < root_hash@.len() ==> hex_char(#[trigger] root_hash@[i])))
        || (device_check_ok(root) && (device_fault(root) is None ==> device_check_ok(hash_dev)))
}

/// Whether building the dm-verity commands for these parameters goes
/// through without a panic (see `verify_rootfs_integrity`).
pub fn verity_check_passes(root_device: &str, hash_device: &str, root_hash: &str) -> (b: bool)
    ensures
        b == verity_check_ok(root_device@, hash_device@, root_hash),
{
    if root_device.unicode_len() == 0 || hash_device.unicode_len() == 0 || root_hash.unicode_len() == 0 {
        return true;
    }
    if root_hash.len() != 64 {
        return true;
    }
    let n = root_hash.unicode_len();
    let mut i: usize = 0;
    while i < n
        invariant
            n == root_hash@.len(),
            i <= n,
            forall|k: int| 0 <= k < i ==> hex_char(#[trigger] root_hash@[k]),
        decreases n - i,
    {
        let c = root_hash.get_char(i);
        if !(('0' <= c && c <= '9') || ('a' <= c && c <= 'f') || ('A' <= c && c <= 'F')) {
            assert(!hex_char(root_hash@[i as int]));
            return true;
        }
        i += 1;
    }
    if !device_check_passes(root_device) {
        return false;
    }
    match validate_device_path(root_device) {
        Err(_) => true,
        Ok(()) => device_check_passes(hash_device),
    }
}

/// Open `root` as the verified mapping `verified-root`, checked against
/// `hash_dev` and `root_hash` (restarting on corruption), then mount it
/// read-only on `/mnt/root`.
pub open spec fn verity_commands(root: Seq<char>, hash_dev: Seq<char>, root_hash: Seq<char>) -> Seq<CommandView> {
    seq![
        ("veritysetup"@, seq!["open"@, root, "verified-root"@, hash_dev, root_hash, "--restart-on-corruption"@]),
        ("mount"@, seq!["-o"@, "ro"@, "/dev/mapper/verified-root"@, "/mnt/root"@]),
    ]
}

/// Open the LUKS2 device `dev` as `name` with its first token, trying once.
pub open spec fn luks_commands(dev: Seq<char>, name: Seq<char>) -> Seq<CommandView> {
    seq![
        ("cryptsetup"@, seq![
            "open"@,
            "--type"@,
            "luks2"@,
            "--token-only"@,
            "--token-id"@,
            "0"@,
            "--tries"@,
            "1"@,
            dev,
            name,
        ]),
    ]
}

/// The dm-verity commands: open `root_device` as the verified mapping
/// `verified-root` checked against `hash_device` and `root_hash`
/// (restarting on corruption), then mount it read-only on `/mnt/root`.
/// Fails when a parameter is empty, the root hash is not 64 hex
/// characters, or a device is not a plain `/dev/` path.
pub fn verify_rootfs_integrity(root_device: &str, hash_device: &str, root_hash: &str) -> (r: Result<Vec<SafeCommand>, String>)
    requires
        verity_check_ok(root_device@, hash_device@, root_hash),
    ensures
        match verity_fault(root_device@, hash_device@, root_hash) {
            Some(m) => r matches Err(e) && e@ == m,
            None => r matches Ok(cmds) && cmds@.map_values(|c: SafeCommand| command_view(c)) == verity_commands(
                root_device@,
                hash_device@,
                root_hash@,
            ),
        },
{
    if root_device.unicode_len() == 0 || hash_device.unicode_len() == 0 || root_hash.unicode_len() == 0 {
        return Err(owned("dm-verity parameters cannot be empty"));
    }
    if root_hash.len() != 64 {
        return Err(owned("Root hash must be 64 hex characters (SHA-256)"));
    }
    let n = root_hash.unicode_len();
    let mut i: usize = 0;
    while i < n
        invariant
            n == root_hash@.len(),
            i <= n,
            root_device@.len() > 0 && hash_device@.len() > 0 && root_hash@.len() > 0,
            root_hash.spec_bytes().len() as usize == 64,
            verity_check_ok(root_device@, hash_device@, root_hash),
            forall|k: int| 0 <= k < i ==> hex_char(#[trigger] root_hash@[k]),
        decreases n - i,
    {
        let c = root_hash.get_char(i);
        if !(('0' <= c && c <= '9') || ('a' <= c && c <= 'f') || ('A' <= c && c <= 'F')) {
            assert(!hex_char(root_hash@[i as int]));
            return Err(owned("Root hash must contain only hex characters (0-9, a-f)"));
        }
        i += 1;
    }
    match validate_device_path(root_device) {
        Err(e) => {
            return Err(e);
        },
        Ok(()) => {},
    }
    match validate_device_path(hash_device) {
        Err(e) => {
            return Err(e);
        },
        Ok(()) => {},
    }
    let open_args = vec![
        owned("open"),
        owned(root_device),
        owned("verified-root"),
        owned(hash_device),
        owned(root_hash),
        owned("--restart-on-corruption"),
    ];
    assert(open_args@.map_values(|a: String| a@) =~= seq![
        "open"@,
        root_device@,
        "verified-root"@,
        hash_device@,
        root_hash@,
        "--restart-on-corruption"@,
    ]);
    let mount_args = vec![owned("-o"), owned("ro"), owned("/dev/mapper/verified-root"), owned("/mnt/root")];
    assert(mount_args@.map_values(|a: String| a@) =~= seq!["-o"@, "ro"@, "/dev/mapper/verified-root"@, "/mnt/root"@]);
    let cmds = vec![command("veritysetup", open_args), command("mount", mount_args)];
    assert(cmds@.map_values(|c: SafeCommand| command_view(c)) =~= seq![
        ("veritysetup"@, seq![
            "open"@,
            root_device@,
            "verified-root"@,
            hash_device@,
            root_hash@,
            "--restart-on-corruption"@,
        ]),
        ("mount"@, seq!["-o"@, "ro"@, "/dev/mapper/verified-root"@, "/mnt/root"@]),
    ]);
    Ok(cmds)
}

/// A mapped-name character: ASCII letter or digit, `-` or `_`.
pub open spec fn mapped_char(c: char) -> bool {
    ('a' <= c && c <= 'z') || ('A' <= c && c <= 'Z') || ('0' <= c && c <= '9') || c == '-' || c == '_'
}

/// The error for unlocking `device` as `name`, if any: a device path fault,
/// then an empty name or one with other characters.
pub open spec fn luks_fault(device: Seq<char>, name: Seq<char>) -> Option<Seq<char>> {
    if device_fault(device) is Some {
        device_fault(device)
    } else if name.len() == 0 {
        Some("mapped name cannot be empty"@)
    } else if !(forall|i: int| 0 <= i < name.len() ==> mapped_char(#[trigger] name[i])) {
        Some("mapped name contains invalid characters"@)
    } else {
        None
    }
}

/// The command that unlocks LUKS device `encrypted_device` as
/// `mapped_name` with its TPM token (token 0, one try, no passphrase).
/// Fails when the device is not a plain `/dev/` path or the name is empty
/// or holds characters other than ASCII letters, digits, `-` and `_`.
pub fn unlock_luks(encrypted_device: &str, mapped_name: &str) -> (r: Result<Vec<SafeCommand>, String>)
    requires
        device_check_ok(encrypted_device@),
    ensures
        match luks_fault(encrypted_device@, mapped_name@) {
            Some(m) => r matches Err(e) && e@ == m,
            None => r matches Ok(cmds) && cmds@.map_values(|c: SafeCommand| command_view(c)) == luks_commands(
                encrypted_device@,
                mapped_name@,
            ),
        },
{
    match validate_device_path(encrypted_device) {
        Err(e) => {
            return Err(e);
        },
        Ok(()) => {},
    }
    let n = mapped_name.unicode_len();
    if n == 0 {
        return Err(owned("mapped name cannot be empty"));
    }
    let mut i: usize = 0;
    while i < n
        invariant
            n == mapped_name@.len(),
            n > 0,
            device_fault(encrypted_device@) is None,
            i <= n,
            forall|k: int| 0 <= k < i ==> mapped_char(#[trigger] mapped_name@[k]),
        decreases n - i,
    {
        let c = mapped_name.get_char(i);
        if !(('a' <= c && c <= 'z') || ('A' <= c && c <= 'Z') || ('0' <= c && c <= '9') || c == '-'
            || c == '_') {
            assert(!mapped_char(mapped_name@[i as int]));
            return Err(owned("mapped name contains invalid characters"));
        }
        i += 1;
    }
    let args = vec![
        owned("open"),
        owned("--type"),
        owned("luks2"),
        owned("--token-only"),
        owned("--token-id"),
        owned("0"),
        owned("--tries"),
        owned("1"),
        owned(encrypted_device),
        owned(mapped_name),
    ];
    assert(args@.map_values(|a: String| a@) =~= seq![
        "open"@,
        "--type"@,
        "luks2"@,
        "--token-only"@,
        "--token-id"@,
        "0"@,
        "--tries"@,
        "1"@,
        encrypted_device@,
        mapped_name@,
    ]);
    let cmds = vec![command("cryptsetup", args)];
    assert(cmds@.map_values(|c: SafeCommand| command_view(c)) =~= seq![
        ("cryptsetup"@, seq![
            "open"@,
            "--type"@,
            "luks2"@,
            "--token-only"@,
            "--token-id"@,
            "0"@,
            "--tries"@,
            "1"@,
            encrypted_device@,
            mapped_name@,
        ]),
    ]);
    Ok(cmds)
}

/// The command that closes the LUKS mapping `mapped_name`.
pub fn close_luks(mapped_name: &str) -> (cmds: Vec<SafeCommand>)
    ensures
        cmds@.map_values(|c: SafeCommand| command_view(c)) == seq![("cryptsetup"@, seq!["close"@, mapped_name@])],
{
    let args = vec![owned("close"), owned(mapped_name)];
    assert(args@.map_values(|a: String| a@) =~= seq!["close"@, mapped_name@]);
    let cmds = vec![command("cryptsetup", args)];
    assert(cmds@.map_values(|c: SafeCommand| command_view(c)) =~= seq![("cryptsetup"@, seq!["close"@, mapped_name@])]);
    cmds
}


/// What an edge boot did.
#[derive(Debug)]
pub struct EdgeBootResult {
    /// Whether rootfs was locked down.
    pub rootfs_locked: bool,
    /// Whether dm-verity verification passed.
    pub verity_verified: bool,
    /// Whether LUKS was unlocked.
    pub luks_unlocked: bool,
    /// Total boot time in milliseconds.
    pub boot_time_ms: u64,
    /// Whether boot completed within the time budget.
    pub within_budget: bool,
    /// Errors met (boot continues best-effort).
    pub errors: Vec<String>,
}

/// A stage of the edge boot that runs commands.
#[derive(Debug, Clone, Copy, PartialEq, Eq, Structural)]
pub enum EdgeStage {
    LockRootfs,
    VerifyRootfs,
    UnlockLuks,
}

/// The prefix of an error message for a stage whose commands failed.
pub open spec fn exec_prefix(stage: EdgeStage) -> Seq<char> {
    match stage {
        EdgeStage::LockRootfs => "rootfs lockdown: "@,
        EdgeStage::VerifyRootfs => "dm-verity exec: "@,
        EdgeStage::UnlockLuks => "luks unlock: "@,
    }
}

/// The commands a stage of the edge boot runs.
pub open spec fn stage_commands(
    stage: EdgeStage,
    root_device: Seq<char>,
    hash_device: Seq<char>,
    root_hash: Seq<char>,
    luks_device: Seq<char>,
) -> Seq<CommandView> {
    match stage {
        EdgeStage::LockRootfs => readonly_commands(),
        EdgeStage::VerifyRootfs => verity_commands(root_device, hash_device, root_hash),
        EdgeStage::UnlockLuks => luks_commands(luks_device, "agnos-data"@),
    }
}

/// Why a stage's commands cannot be built from the given parameters, if
/// they cannot: locking the rootfs always can.
pub open spec fn stage_fault(
    stage: EdgeStage,
    root_device: Seq<char>,
    hash_device: Seq<char>,
    root_hash: &str,
    luks_device: Seq<char>,
) -> Option<Seq<char>> {
    match stage {
        EdgeStage::LockRootfs => None,
        EdgeStage::VerifyRootfs => verity_fault(root_device, hash_device, root_hash),
        EdgeStage::UnlockLuks => luks_fault(luks_device, "agnos-data"@),
    }
}

/// The prefix of an error message for a stage whose commands could not
/// be built.
pub open spec fn invalid_prefix(stage: EdgeStage) -> Seq<char> {
    match stage {
        EdgeStage::VerifyRootfs => "dm-verity validation: "@,
        _ => "luks validation: "@,
    }
}

/// The edge boot plan: the result before any stage runs (stages that are
/// skipped count as done) and the stages, in the order they run: lock the
/// rootfs when configured, verify it when all dm-verity parameters are
/// given, and unlock LUKS when enabled and a device is given (as
/// `agnos-data`). Each stage comes with its commands, or with why they
/// cannot be built.
pub fn plan_edge_boot(
    config: &EdgeBootConfig,
    root_device: &str,
    hash_device: &str,
    root_hash: &str,
    luks_device: &str,
) -> (r: (EdgeBootResult, Vec<(EdgeStage, Result<Vec<SafeCommand>, String>)>))
    requires
        verity_check_ok(root_device@, hash_device@, root_hash),
        config.luks_enabled && luks_device@.len() > 0 ==> device_check_ok(luks_device@),
    ensures
        r.0.rootfs_locked == !config.readonly_rootfs,
        !r.0.verity_verified,
        r.0.luks_unlocked == !(config.luks_enabled && luks_device@.len() > 0),
        r.0.boot_time_ms == 0,
        r.0.within_budget,
        r.0.errors@.len() == 0,
        forall|k: int|
            0 <= k < r.1@.len() ==> match (#[trigger] r.1@[k]).1 {
                Ok(cmds) => stage_fault(r.1@[k].0, root_device@, hash_device@, root_hash, luks_device@) is None
                    && cmds@.map_values(|c: SafeCommand| command_view(c)) == stage_commands(
                    r.1@[k].0,
                    root_device@,
                    hash_device@,
                    root_hash@,
                    luks_device@,
                ),
                Err(e) => stage_fault(r.1@[k].0, root_device@, hash_device@, root_hash, luks_device@) == Some(
                    e@,
                ),
            },
        r.1@.map_values(|p: (EdgeStage, Result<Vec<SafeCommand>, String>)| p.0) == (if config.readonly_rootfs {
            seq![EdgeStage::LockRootfs]
        } else {
            seq![]
        }) + (if root_device@.len() > 0 && hash_device@.len() > 0 && root_hash@.len() > 0 {
            seq![EdgeStage::VerifyRootfs]
        } else {
            seq![]
        }) + (if config.luks_enabled && luks_device@.len() > 0 {
            seq![EdgeStage::UnlockLuks]
        } else {
            seq![]
        }),
{
    let mut result = EdgeBootResult {
        rootfs_locked: false,
        verity_verified: false,
        luks_unlocked: false,
        boot_time_ms: 0,
        within_budget: true,
        errors: Vec::new(),
    };
    let mut stages: Vec<(EdgeStage, Result<Vec<SafeCommand>, String>)> = Vec::new();
    if config.readonly_rootfs {
        stages.push((EdgeStage::LockRootfs, Ok(configure_readonly_rootfs())));
    } else {
        result.rootfs_locked = true;
    }
    let ghost s1 = stages@.map_values(|p: (EdgeStage, Result<Vec<SafeCommand>, String>)| p.0);
    let verity_given = root_device.unicode_len() > 0 && hash_device.unicode_len() > 0
        && root_hash.unicode_len() > 0;
    if verity_given {
        stages.push((EdgeStage::VerifyRootfs, verify_rootfs_integrity(root_device, hash_device, root_hash)));
    }
    let ghost s2 = stages@.map_values(|p: (EdgeStage, Result<Vec<SafeCommand>, String>)| p.0);
    let luks_given = config.luks_enabled && luks_device.unicode_len() > 0;
    if luks_given {
        stages.push((EdgeStage::UnlockLuks, unlock_luks(luks_device, "agnos-data")));
    } else {
        result.luks_unlocked = true;
    }
    proof {
        let m = stages@.map_values(|p: (EdgeStage, Result<Vec<SafeCommand>, String>)| p.0);
        let a = if config.readonly_rootfs {
            seq![EdgeStage::LockRootfs]
        } else {
            seq![]
        };
        let b = if verity_given {
            seq![EdgeStage::VerifyRootfs]
        } else {
            seq![]
        };
        let c = if luks_given {
            seq![EdgeStage::UnlockLuks]
        } else {
            seq![]
        };
        assert(s1 =~= a);
        assert(s2 =~= a + b);
        assert(m =~= a + b + c);
    }
    (result, stages)
}

/// Records a stage whose commands could not be built: adds
/// `dm-verity validation: <why>` or `luks validation: <why>` to the errors.
pub fn record_edge_invalid(result: &mut EdgeBootResult, stage: EdgeStage, why: String)
    requires
        stage != EdgeStage::LockRootfs,
    ensures
        final(result).errors@.len() == old(result).errors@.len() + 1,
        final(result).errors@.last()@ == invalid_prefix(stage) + why@,
        final(result).errors@.drop_last() == old(result).errors@,
        final(result).rootfs_locked == old(result).rootfs_locked,
        final(result).verity_verified == old(result).verity_verified,
        final(result).luks_unlocked == old(result).luks_unlocked,
        final(result).boot_time_ms == old(result).boot_time_ms,
        final(result).within_budget == old(result).within_budget,
{
    let prefix = match stage {
        EdgeStage::VerifyRootfs => "dm-verity validation: ",
        _ => "luks validation: ",
    };
    let ghost before = result.errors@;
    result.errors.push(concat2(prefix, why.as_str()));
    assert(result.errors@.drop_last() =~= before);
}

/// Records the outcome of running a stage's commands: success marks the
/// stage done, failure adds `<stage>: <error>` to the errors.
pub fn record_edge_outcome(result: &mut EdgeBootResult, stage: EdgeStage, outcome: Result<(), String>)
    ensures
        outcome is Ok ==> {
            &&& final(result).errors@ == old(result).errors@
            &&& final(result).rootfs_locked == (old(result).rootfs_locked || stage == EdgeStage::LockRootfs)
            &&& final(result).verity_verified == (old(result).verity_verified || stage == EdgeStage::VerifyRootfs)
            &&& final(result).luks_unlocked == (old(result).luks_unlocked || stage == EdgeStage::UnlockLuks)
        },
        outcome is Err ==> {
            &&& final(result).errors@.len() == old(result).errors@.len() + 1
            &&& final(result).errors@.last()@ == exec_prefix(stage) + outcome->Err_0@
            &&& final(result).errors@.drop_last() == old(result).errors@
            &&& final(result).rootfs_locked == old(result).rootfs_locked
            &&& final(result).verity_verified == old(result).verity_verified
            &&& final(result).luks_unlocked == old(result).luks_unlocked
        },
        final(result).boot_time_ms == old(result).boot_time_ms,
        final(result).within_budget == old(result).within_budget,
{
    match outcome {
        Ok(()) => match stage {
            EdgeStage::LockRootfs => {
                result.rootfs_locked = true;
            },
            EdgeStage::VerifyRootfs => {
                result.verity_verified = true;
            },
            EdgeStage::UnlockLuks => {
                result.luks_unlocked = true;
            },
        },
        Err(e) => {
            let prefix = match stage {
                EdgeStage::LockRootfs => "rootfs lockdown: ",
                EdgeStage::VerifyRootfs => "dm-verity exec: ",
                EdgeStage::UnlockLuks => "luks unlock: ",
            };
            let ghost before = result.errors@;
            result.errors.push(concat2(prefix, e.as_str()));
            assert(result.errors@.drop_last() =~= before);
        },
    }
}

/// Records the boot time and whether it kept within `max_boot_time_ms`.
pub fn finish_edge_boot(result: &mut EdgeBootResult, elapsed_ms: u64, max_boot_time_ms: u64)
    ensures
        final(result).boot_time_ms == elapsed_ms,
        final(result).within_budget == (elapsed_ms <= max_boot_time_ms),
        final(result).rootfs_locked == old(result).rootfs_locked,
        final(result).verity_verified == old(result).verity_verified,
        final(result).luks_unlocked == old(result).luks_unlocked,
        final(result).errors == old(result).errors,
{
    result.boot_time_ms = elapsed_ms;
    result.within_budget = elapsed_ms <= max_boot_time_ms;
}

/// The edge profile violations of a boot, in order: over the time budget
/// (`boot time <ms>ms exceeds budget`), rootfs not locked, errors met
/// (`<n> errors during boot`), and total memory (when known, in MB) over
/// `max_memory_mb`.
pub fn validate_edge_profile(boot_result: &EdgeBootResult, max_memory_mb: u64, total_memory_mb: Option<u64>) -> (v: Vec<String>)
    ensures
        ({
            let a: Seq<Seq<char>> = if !boot_result.within_budget {
                seq!["boot time "@ + dec(boot_result.boot_time_ms as nat) + "ms exceeds budget"@]
            } else {
                seq![]
            };
            let b: Seq<Seq<char>> = if !boot_result.rootfs_locked {
                seq!["rootfs not locked to read-only"@]
            } else {
                seq![]
            };
            let c: Seq<Seq<char>> = if boot_result.errors@.len() > 0 {
                seq![dec(boot_result.errors@.len()) + " errors during boot"@]
            } else {
                seq![]
            };
            let d: Seq<Seq<char>> = match total_memory_mb {
                Some(mb) => if mb > max_memory_mb {
                    seq!["total memory "@ + dec(mb as nat) + "MB exceeds limit "@ + dec(max_memory_mb as nat) + "MB"@]
                } else {
                    seq![]
                },
                None => seq![],
            };
            v@.map_values(|s: String| s@) == a + b + c + d
        }),
{
    let mut v: Vec<String> = Vec::new();
    if !boot_result.within_budget {
        let mut s = owned("boot time ");
        push_u64(&mut s, boot_result.boot_time_ms);
        push_str(&mut s, "ms exceeds budget");
        v.push(s);
    }
    let ghost va = v@.map_values(|s: String| s@);
    if !boot_result.rootfs_locked {
        v.push(owned("rootfs not locked to read-only"));
    }
    let ghost vb = v@.map_values(|s: String| s@);
    if boot_result.errors.len() > 0 {
        let mut s = String::new();
        push_u64(&mut s, boot_result.errors.len() as u64);
        push_str(&mut s, " errors during boot");
        v.push(s);
    }
    let ghost vc = v@.map_values(|s: String| s@);
    match total_memory_mb {
        Some(mb) => {
            if mb > max_memory_mb {
                let mut s = owned("total memory ");
                push_u64(&mut s, mb);
                push_str(&mut s, "MB exceeds limit ");
                push_u64(&mut s, max_memory_mb);
                push_str(&mut s, "MB");
                v.push(s);
            }
        },
        None => {},
    }
    proof {
        let a: Seq<Seq<char>> = if !boot_result.within_budget {
            seq!["boot time "@ + dec(boot_result.boot_time_ms as nat) + "ms exceeds budget"@]
        } else {
            seq![]
        };
        let b: Seq<Seq<char>> = if !boot_result.rootfs_locked {
            seq!["rootfs not locked to read-only"@]
        } else {
            seq![]
        };
        let c: Seq<Seq<char>> = if boot_result.errors@.len() > 0 {
            seq![dec(boot_result.errors@.len()) + " errors during boot"@]
        } else {
            seq![]
        };
        assert(va =~= a);
        assert(vb =~= a + b);
        assert(vc =~= a + b + c);
    }
    assert(v@.map_values(|s: String| s@) =~= vc + match total_memory_mb {
        Some(mb) => if mb > max_memory_mb {
            seq!["total memory "@ + dec(mb as nat) + "MB exceeds limit "@ + dec(max_memory_mb as nat) + "MB"@]
        } else {
            seq![]
        },
        None => seq![],
    });
    v
}

// ---------------------------------------------------------------------------
// Memory and fleet registration
// ---------------------------------------------------------------------------

/// The line of `/proc/meminfo` that gives the total memory.
pub open spec fn is_memtotal_line(line: Seq<char>) -> bool {
    9 <= line.len() && line.take(9) == "MemTotal:"@
}

/// The index of the first `MemTotal:` line of `lines`, or its length.
pub open spec fn first_memtotal(lines: Seq<Seq<char>>) -> int
    decreases lines.len(),
{
    if lines.len() == 0 {
        0
    } else if is_memtotal_line(lines[0]) {
        0
    } else {
        1 + first_memtotal(lines.drop_first())
    }
}

proof fn lemma_first_memtotal(lines: Seq<Seq<char>>)
    ensures
        0 <= first_memtotal(lines) <= lines.len(),
        first_memtotal(lines) < lines.len() ==> is_memtotal_line(lines[first_memtotal(lines)]),
        forall|k: int| 0 <= k < first_memtotal(lines) ==> !is_memtotal_line(#[trigger] lines[k]),
    decreases lines.len(),
{
    if lines.len() > 0 && !is_memtotal_line(lines[0]) {
        lemma_first_memtotal(lines.drop_first());
        assert forall|k: int| 0 <= k < first_memtotal(lines) implies !is_memtotal_line(#[trigger] lines[k]) by {
            if k > 0 {
                assert(lines[k] == lines.drop_first()[k - 1]);
            }
        }
    }
}

/// The kilobytes that a `MemTotal:` line gives in its second word, or 0
/// when that word is missing or is no `u64`.
pub open spec fn kb_field(line: Seq<char>) -> nat {
    let w = words(line);
    if w.len() > 1 {
        match unsigned_text(w[1]) {
            Some(v) => if v <= u64::MAX {
                v
            } else {
                0
            },
            None => 0,
        }
    } else {
        0
    }
}

/// The total memory in MB that the text of `/proc/meminfo` gives: the
/// kilobytes of its first `MemTotal:` line divided by 1024, or `None` when
/// it has no such line.
pub open spec fn meminfo_total_mb(text: Seq<char>) -> Option<nat> {
    let lines = split_lines(text);
    let i = first_memtotal(lines);
    if i < lines.len() {
        Some(kb_field(lines[i]) / 1024)
    } else {
        None
    }
}

/// The total memory in MB that the text of `/proc/meminfo` gives.
pub fn total_memory_mb(meminfo: &str) -> (r: Option<u64>)
    ensures
        match meminfo_total_mb(meminfo@) {
            Some(mb) => r == Some(mb as u64),
            None => r is None,
        },
{
    let lines = lines_of(meminfo);
    let n = lines.len();
    let ghost ls = split_lines(meminfo@);
    proof {
        lemma_first_memtotal(ls);
    }
    let mut i: usize = 0;
    while i < n
        invariant
            n == lines@.len(),
            ls == split_lines(meminfo@),
            ls == lines@.map_values(|x: String| x@),
            i <= n,
            i <= first_memtotal(ls),
            0 <= first_memtotal(ls) <= ls.len(),
            first_memtotal(ls) < ls.len() ==> is_memtotal_line(ls[first_memtotal(ls)]),
            forall|k: int| 0 <= k < first_memtotal(ls) ==> !is_memtotal_line(#[trigger] ls[k]),
        decreases n - i,
    {
        let line = &lines[i];
        assert(ls[i as int] == line@);
        if starts_with(line.as_str(), "MemTotal:") {
            proof {
                reveal_strlit("MemTotal:");
                if (i as int) < first_memtotal(ls) {
                    assert(!is_memtotal_line(ls[i as int]));
                }
            }
            let kb: u64 = match nth_word(line.as_str(), 1) {
                Some(w) => match parse_u64(w.as_str()) {
                    Some(v) => v,
                    None => 0,
                },
                None => 0,
            };
            return Some(kb / 1024);
        }
        proof {
            reveal_strlit("MemTotal:");
            assert(!is_memtotal_line(ls[i as int]));
        }
        i += 1;
    }
    None
}

/// The registration an edge device sends its fleet server on first boot.
#[derive(Debug, Clone)]
pub struct FleetRegistration {
    /// Machine ID (from `/etc/machine-id`).
    pub machine_id: String,
    /// Hostname of the device.
    pub hostname: String,
    /// Boot mode the device started in.
    pub boot_mode: String,
    /// Whether dm-verity is active.
    pub verity_active: bool,
    /// Whether LUKS is active.
    pub luks_active: bool,
    /// Kernel version string.
    pub kernel_version: String,
    /// Total memory in MB.
    pub total_memory_mb: u64,
}

/// The kernel version that the text of `/proc/version` gives: its third
/// word, or `unknown`.
pub open spec fn kernel_version_of(text: Seq<char>) -> Seq<char> {
    if words(text).len() > 2 {
        words(text)[2]
    } else {
        "unknown"@
    }
}

impl FleetRegistration {
    /// The registration built from what the system files hold (an unread
    /// file counts as empty): the trimmed machine id and hostname, the
    /// third word of `/proc/version`, the total memory from
    /// `/proc/meminfo` (0 when unknown), boot mode `edge`, and whether
    /// dm-verity and LUKS are active after `boot_result`.
    pub fn from_readings(
        boot_result: &EdgeBootResult,
        machine_id_text: &str,
        hostname_text: &str,
        version_text: &str,
        meminfo_text: &str,
    ) -> (r: Self)
        ensures
            r.machine_id@ == trim(machine_id_text@),
            r.hostname@ == trim(hostname_text@),
            r.boot_mode@ == "edge"@,
            r.verity_active == boot_result.verity_verified,
            r.luks_active == boot_result.luks_unlocked,
            r.kernel_version@ == kernel_version_of(version_text@),
            r.total_memory_mb == match meminfo_total_mb(meminfo_text@) {
                Some(mb) => mb,
                None => 0,
            },
    {
        let kernel_version = match nth_word(version_text, 2) {
            Some(w) => w,
            None => owned("unknown"),
        };
        let total = match total_memory_mb(meminfo_text) {
            Some(mb) => mb,
            None => 0,
        };
        FleetRegistration {
            machine_id: trim_str(machine_id_text),
            hostname: trim_str(hostname_text),
            boot_mode: owned("edge"),
            verity_active: boot_result.verity_verified,
            luks_active: boot_result.luks_unlocked,
            kernel_version,
            total_memory_mb: total,
        }
    }
}

} // verus!
