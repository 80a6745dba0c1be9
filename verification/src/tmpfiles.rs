//! Boot-time filesystem entries (a tmpfiles.d equivalent): the commands
//! that create them, and their validation.

use vstd::prelude::*;

use crate::text::{concat2, contains_str, contains_sub, dec, owned, push_char, push_padded_radix, push_str, push_u64, radix, zero_pad};
use crate::types::{SafeCommand, TmpfileEntry};

verus! {

/// `{:04o}`: the octal digits of `mode`, zero-padded to four.
pub open spec fn oct4(mode: u32) -> Seq<char> {
    zero_pad(radix(mode as nat, 8), 4)
}

/// A command as its binary and arguments.
pub type CommandView = (Seq<char>, Seq<Seq<char>>);

/// The command's binary and arguments.
pub open spec fn command_view(c: SafeCommand) -> CommandView {
    (c.binary@, c.args@.map_values(|a: String| a@))
}

/// The owner argument of `chown`: `<uid>:<gid>`, each empty when absent.
pub open spec fn owner_text(uid: Option<u32>, gid: Option<u32>) -> Seq<char> {
    (match uid {
        Some(u) => dec(u as nat),
        None => seq![],
    }) + ":"@ + (match gid {
        Some(g) => dec(g as nat),
        None => seq![],
    })
}

/// The commands that create one entry: `mkdir -p -m <mode> <path>`, then
/// `chown <uid>:<gid> <path>` when an owner is given; `ln -sf <target>
/// <path>`; or `mknod <path> <type> <major> <minor>` then `chmod <mode>
/// <path>`.
pub open spec fn entry_commands(e: TmpfileEntry) -> Seq<CommandView> {
    match e {
        TmpfileEntry::Directory { path, mode, uid, gid } => {
            let mk = ("mkdir"@, seq!["-p"@, "-m"@, oct4(mode), path@]);
            if uid is Some || gid is Some {
                seq![mk, ("chown"@, seq![owner_text(uid, gid), path@])]
            } else {
                seq![mk]
            }
        },
        TmpfileEntry::Symlink { path, target } => seq![("ln"@, seq!["-sf"@, target@, path@])],
        TmpfileEntry::Device { path, dev_type, major, minor, mode } => seq![
            ("mknod"@, seq![path@, seq![dev_type], dec(major as nat), dec(minor as nat)]),
            ("chmod"@, seq![oct4(mode), path@]),
        ],
    }
}

/// The commands for all entries, in order.
pub open spec fn tmpfile_commands(entries: Seq<TmpfileEntry>) -> Seq<CommandView>
    decreases entries.len(),
{
    if entries.len() == 0 {
        seq![]
    } else {
        tmpfile_commands(entries.drop_last()) + entry_commands(entries.last())
    }
}

fn command(binary: &str, args: Vec<String>) -> (c: SafeCommand)
    ensures
        c.binary@ == binary@,
        c.args == args,
        command_view(c) == (binary@, args@.map_values(|a: String| a@)),
{
    SafeCommand { binary: owned(binary), args }
}

fn oct4_string(mode: u32) -> (s: String)
    ensures
        s@ == oct4(mode),
{
    let mut s = String::new();
    push_padded_radix(&mut s, mode as u64, 8, 4);
    assert(s@ =~= oct4(mode));
    s
}

fn dec_string(n: u32) -> (s: String)
    ensures
        s@ == dec(n as nat),
{
    let mut s = String::new();
    push_u64(&mut s, n as u64);
    assert(s@ =~= dec(n as nat));
    s
}

/// The commands that create `entries`, in order: for each, as
/// `entry_commands` describes.
pub fn generate_tmpfile_commands(entries: &[TmpfileEntry]) -> (cmds: Vec<SafeCommand>)
    ensures
        cmds@.map_values(|c: SafeCommand| command_view(c)) == tmpfile_commands(entries@),
{
    let n = entries.len();
    let mut cmds: Vec<SafeCommand> = Vec::new();
    let mut i: usize = 0;
    while i < n
        invariant
            n == entries@.len(),
            i <= n,
            cmds@.map_values(|c: SafeCommand| command_view(c)) == tmpfile_commands(entries@.take(i as int)),
        decreases n - i,
    {
        let ghost before = cmds@.map_values(|c: SafeCommand| command_view(c));
        proof {
            assert(entries@.take(i + 1).drop_last() =~= entries@.take(i as int));
            assert(entries@.take(i + 1).last() == entries@[i as int]);
        }
        match &entries[i] {
            TmpfileEntry::Directory { path, mode, uid, gid } => {
                let args = vec![owned("-p"), owned("-m"), oct4_string(*mode), path.clone()];
                assert(args@.map_values(|a: String| a@) =~= seq!["-p"@, "-m"@, oct4(*mode), path@]);
                cmds.push(command("mkdir", args));
                if uid.is_some() || gid.is_some() {
                    let mut owner = String::new();
                    match uid {
                        Some(u) => push_u64(&mut owner, *u as u64),
                        None => {},
                    }
                    push_str(&mut owner, ":");
                    match gid {
                        Some(g) => push_u64(&mut owner, *g as u64),
                        None => {},
                    }
                    assert(owner@ =~= owner_text(*uid, *gid));
                    let args2 = vec![owner, path.clone()];
                    assert(args2@.map_values(|a: String| a@) =~= seq![owner_text(*uid, *gid), path@]);
                    cmds.push(command("chown", args2));
                }
            },
            TmpfileEntry::Symlink { path, target } => {
                let args = vec![owned("-sf"), target.clone(), path.clone()];
                assert(args@.map_values(|a: String| a@) =~= seq!["-sf"@, target@, path@]);
                cmds.push(command("ln", args));
            },
            TmpfileEntry::Device { path, dev_type, major, minor, mode } => {
                let mut t = String::new();
                push_char(&mut t, *dev_type);
                assert(t@ =~= seq![*dev_type]);
                let args = vec![path.clone(), t, dec_string(*major), dec_string(*minor)];
                assert(args@.map_values(|a: String| a@) =~= seq![
                    path@,
                    seq![*dev_type],
                    dec(*major as nat),
                    dec(*minor as nat),
                ]);
                cmds.push(command("mknod", args));
                let args2 = vec![oct4_string(*mode), path.clone()];
                assert(args2@.map_values(|a: String| a@) =~= seq![oct4(*mode), path@]);
                cmds.push(command("chmod", args2));
            },
        }
        assert(cmds@.map_values(|c: SafeCommand| command_view(c)) =~= before + entry_commands(entries@[i as int]));
        i += 1;
    }
    assert(entries@.take(n as int) =~= entries@);
    cmds
}

/// Why an entry is invalid.
#[derive(Debug, PartialEq, Eq)]
pub enum TmpfileError {
    /// A path does not start with `/`.
    NotAbsolute { path: String },
    /// A path contains `..`.
    Traversal { path: String },
    /// A mode above `0o7777`.
    InvalidMode { mode: u32 },
    /// A device type other than `b` or `c`.
    InvalidDeviceType { dev_type: char, path: String },
}

impl TmpfileError {
    pub open spec fn text(self) -> Seq<char> {
        match self {
            TmpfileError::NotAbsolute { path } => "tmpfile path must be absolute: "@ + path@,
            TmpfileError::Traversal { path } => "tmpfile path contains traversal sequence: "@ + path@,
            TmpfileError::InvalidMode { mode } => "invalid mode "@ + oct4(mode) + " (max 7777)"@,
            TmpfileError::InvalidDeviceType { dev_type, path } => "invalid device type '"@ + seq![dev_type]
                + "' for "@ + path@ + " (expected 'b' or 'c')"@,
        }
    }

    /// The error message.
    pub fn to_string(&self) -> (s: String)
        ensures
            s@ == self.text(),
    {
        match self {
            TmpfileError::NotAbsolute { path } => concat2("tmpfile path must be absolute: ", path.as_str()),
            TmpfileError::Traversal { path } => concat2(
                "tmpfile path contains traversal sequence: ",
                path.as_str(),
            ),
            TmpfileError::InvalidMode { mode } => {
                let mut s = owned("invalid mode ");
                push_padded_radix(&mut s, *mode as u64, 8, 4);
                push_str(&mut s, " (max 7777)");
                s
            },
            TmpfileError::InvalidDeviceType { dev_type, path } => {
                let mut s = owned("invalid device type '");
                push_char(&mut s, *dev_type);
                push_str(&mut s, "' for ");
                push_str(&mut s, path.as_str());
                push_str(&mut s, " (expected 'b' or 'c')");
                s
            },
        }
    }
}

/// The error for path `p`, if it is not absolute or holds `..`.
pub open spec fn path_fault(p: String) -> Option<TmpfileError> {
    if !(p@.len() > 0 && p@[0] == '/') {
        Some(TmpfileError::NotAbsolute { path: p })
    } else if contains_sub(p@, ".."@) {
        Some(TmpfileError::Traversal { path: p })
    } else {
        None
    }
}

/// The error for `mode`, if it is above `0o7777`.
pub open spec fn mode_fault(mode: u32) -> Option<TmpfileError> {
    if mode > 0o7777 {
        Some(TmpfileError::InvalidMode { mode })
    } else {
        None
    }
}

/// The first fault of entry `e`: its path, its mode, then (for a symlink)
/// its target or (for a device) its type.
pub open spec fn entry_fault(e: TmpfileEntry) -> Option<TmpfileError> {
    match e {
        TmpfileEntry::Directory { path, mode, .. } => if path_fault(path) is Some {
            path_fault(path)
        } else {
            mode_fault(mode)
        },
        TmpfileEntry::Symlink { path, target } => if path_fault(path) is Some {
            path_fault(path)
        } else {
            path_fault(target)
        },
        TmpfileEntry::Device { path, dev_type, mode, .. } => if path_fault(path) is Some {
            path_fault(path)
        } else if mode_fault(mode) is Some {
            mode_fault(mode)
        } else if dev_type != 'b' && dev_type != 'c' {
            Some(TmpfileError::InvalidDeviceType { dev_type, path })
        } else {
            None
        },
    }
}

/// The same error, paths compared by their characters.
pub open spec fn same_fault(a: TmpfileError, b: TmpfileError) -> bool {
    match (a, b) {
        (TmpfileError::NotAbsolute { path: x }, TmpfileError::NotAbsolute { path: y }) => x@ == y@,
        (TmpfileError::Traversal { path: x }, TmpfileError::Traversal { path: y }) => x@ == y@,
        (TmpfileError::InvalidMode { mode: x }, TmpfileError::InvalidMode { mode: y }) => x == y,
        (
            TmpfileError::InvalidDeviceType { dev_type: x, path: p },
            TmpfileError::InvalidDeviceType { dev_type: y, path: q },
        ) => x == y && p@ == q@,
        _ => false,
    }
}

/// `e` is the first fault of `entry`.
pub open spec fn first_fault_is(entry: TmpfileEntry, e: TmpfileError) -> bool {
    match entry_fault(entry) {
        Some(f) => same_fault(e, f),
        None => false,
    }
}

fn validate_path(path: &String) -> (r: Result<(), TmpfileError>)
    ensures
        match path_fault(*path) {
            Some(f) => r matches Err(e) && same_fault(e, f),
            None => r is Ok,
        },
{
    let n = path.as_str().unicode_len();
    if n == 0 || path.as_str().get_char(0) != '/' {
        return Err(TmpfileError::NotAbsolute { path: path.clone() });
    }
    if contains_str(path.as_str(), "..") {
        return Err(TmpfileError::Traversal { path: path.clone() });
    }
    Ok(())
}

fn validate_mode(mode: u32) -> (r: Result<(), TmpfileError>)
    ensures
        match mode_fault(mode) {
            Some(f) => r matches Err(e) && same_fault(e, f),
            None => r is Ok,
        },
{
    if mode > 0o7777 {
        return Err(TmpfileError::InvalidMode { mode });
    }
    Ok(())
}

/// Checks the entries in order and fails with the first fault found: a
/// path that is not absolute or holds `..`, a mode above `0o7777`, or a
/// device type other than `b` or `c`.
pub fn validate_tmpfile_entries(entries: &[TmpfileEntry]) -> (r: Result<(), TmpfileError>)
    ensures
        match r {
            Ok(()) => forall|i: int| 0 <= i < entries@.len() ==> #[trigger] entry_fault(entries@[i]) is None,
            Err(e) => exists|i: int|
                0 <= i < entries@.len() && (forall|j: int| 0 <= j < i ==> #[trigger] entry_fault(entries@[j]) is None)
                    && first_fault_is(#[trigger] entries@[i], e),
        },
{
    let n = entries.len();
    let mut i: usize = 0;
    while i < n
        invariant
            n == entries@.len(),
            i <= n,
            forall|j: int| 0 <= j < i ==> #[trigger] entry_fault(entries@[j]) is None,
        decreases n - i,
    {
        let res = match &entries[i] {
            TmpfileEntry::Directory { path, mode, .. } => match validate_path(path) {
                Err(e) => Err(e),
                Ok(()) => validate_mode(*mode),
            },
            TmpfileEntry::Symlink { path, target } => match validate_path(path) {
                Err(e) => Err(e),
                Ok(()) => validate_path(target),
            },
            TmpfileEntry::Device { path, dev_type, mode, .. } => match validate_path(path) {
                Err(e) => Err(e),
                Ok(()) => match validate_mode(*mode) {
                    Err(e) => Err(e),
                    Ok(()) => {
                        if *dev_type != 'b' && *dev_type != 'c' {
                            Err(TmpfileError::InvalidDeviceType { dev_type: *dev_type, path: path.clone() })
                        } else {
                            Ok(())
                        }
                    },
                },
            },
        };
        match res {
            Err(e) => {
                assert(first_fault_is(entries@[i as int], e));
                return Err(e);
            },
            Ok(()) => {},
        }
        i += 1;
    }
    Ok(())
}

} // verus!
