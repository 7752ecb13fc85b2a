//! Operating-system matters: privilege checks, the command line of an
//! elevated restart, and file times in the Windows `FILETIME` scale.

use vstd::prelude::*;
use crate::text::{chars_of, contains_char, extend_chars, str_eq, string_of};

verus! {

// ---------------------------------------------------------------------------
// Privileges
// ---------------------------------------------------------------------------

/// `nix::unistd::geteuid`, as the raw user id. The id depends on the
/// process, so the contract says nothing of it.
#[verifier::external_body]
fn effective_uid() -> u32 {
    nix::unistd::geteuid().as_raw()
}

/// nix's `Uid::is_root`: the user id is zero.
pub fn is_root_uid(uid: u32) -> (r: bool)
    ensures
        r == (uid == 0),
{
    uid == 0
}

/// Whether the process runs as root (effective user id zero).
pub fn has_admin_privileges() -> bool {
    is_root_uid(effective_uid())
}

/// Requesting elevation does nothing here: on Unix the program is run
/// again with `sudo` by hand.
pub fn request_elevation(args: &[String]) -> (r: Result<(), String>)
    ensures
        r is Ok,
{
    Ok(())
}

/// Creating a symbolic link needs no elevation on Unix.
pub fn needs_elevation_for_symlink() -> (r: bool)
    ensures
        !r,
{
    false
}

/// Windows' rule for symbolic links: creating one needs elevation unless
/// the process runs elevated or Developer Mode is on.
pub fn symlink_needs_elevation_for(admin: bool, dev_mode: bool) -> (r: bool)
    ensures
        r == (!admin && !dev_mode),
{
    !admin && !dev_mode
}

/// That rule for this process, with this platform's privilege check and
/// the Developer Mode setting as the caller read it. The privilege check
/// depends on the process, so only Developer Mode's part is promised.
pub fn symlink_needs_elevation(dev_mode: bool) -> (r: bool)
    ensures
        dev_mode ==> !r,
{
    symlink_needs_elevation_for(has_admin_privileges(), dev_mode)
}

// ---------------------------------------------------------------------------
// The command line of an elevated restart
// ---------------------------------------------------------------------------

/// `s` with every `"` doubled.
pub open spec fn double_quotes(s: Seq<char>) -> Seq<char>
    decreases s.len(),
{
    if s.len() == 0 {
        Seq::empty()
    } else if s.last() == '"' {
        double_quotes(s.drop_last()) + seq!['"', '"']
    } else {
        double_quotes(s.drop_last()).push(s.last())
    }
}

/// An argument as written on the command line: quoted, with inner quotes
/// doubled, when it holds a space or a quote; as it is otherwise.
pub open spec fn quoted_arg(a: Seq<char>) -> Seq<char> {
    if a.contains(' ') || a.contains('"') {
        seq!['"'] + double_quotes(a) + seq!['"']
    } else {
        a
    }
}

/// The command line of the arguments: each quoted as needed, separated by
/// single spaces.
pub open spec fn command_line(args: Seq<Seq<char>>) -> Seq<char>
    decreases args.len(),
{
    if args.len() == 0 {
        Seq::empty()
    } else if args.len() == 1 {
        quoted_arg(args[0])
    } else {
        command_line(args.drop_last()) + seq![' '] + quoted_arg(args.last())
    }
}

fn quote_arg(a: &str) -> (r: Vec<char>)
    ensures
        r@ == quoted_arg(a@),
{
    let v = chars_of(a);
    if !(contains_char(&v, ' ') || contains_char(&v, '"')) {
        return v;
    }
    let mut r: Vec<char> = Vec::new();
    r.push('"');
    let mut i: usize = 0;
    while i < v.len()
        invariant
            i <= v@.len(),
            r@ == seq!['"'] + double_quotes(v@.take(i as int)),
        decreases v@.len() - i,
    {
        assert(v@.take(i + 1).drop_last() =~= v@.take(i as int));
        if v[i] == '"' {
            r.push('"');
            r.push('"');
            assert(r@ =~= seq!['"'] + double_quotes(v@.take(i + 1)));
        } else {
            r.push(v[i]);
            assert(r@ =~= seq!['"'] + double_quotes(v@.take(i + 1)));
        }
        i = i + 1;
    }
    r.push('"');
    assert(v@.take(v@.len() as int) =~= v@);
    r
}

/// The command line passed to an elevated restart (see [`command_line`]).
pub fn elevation_command_line(args: &[String]) -> (r: String)
    ensures
        r@ == command_line(crate::text::string_seqs(args@)),
{
    let ghost a = crate::text::string_seqs(args@);
    let mut out: Vec<char> = Vec::new();
    let mut i: usize = 0;
    while i < args.len()
        invariant
            i <= args@.len(),
            a == crate::text::string_seqs(args@),
            out@ == command_line(a.take(i as int)),
        decreases args@.len() - i,
    {
        let q = quote_arg(args[i].as_str());
        proof {
            assert(a.take(i + 1).drop_last() =~= a.take(i as int));
            assert(a.take(i + 1).last() == args@[i as int]@);
        }
        if i > 0 {
            out.push(' ');
        } else {
            assert(a.take(0) =~= Seq::<Seq<char>>::empty());
        }
        extend_chars(&mut out, &q);
        proof {
            if i == 0 {
                assert(a.take(1) =~= seq![a[0]]);
            }
            assert(out@ =~= command_line(a.take(i + 1)));
        }
        i = i + 1;
    }
    assert(a.take(args@.len() as int) =~= a);
    string_of(&out)
}

/// The flag an elevated restart is started with.
pub open spec fn elevation_flag() -> Seq<char> {
    "--elevated-for-symlink"@
}

/// The non-empty arguments, in order.
pub open spec fn nonempty_args(args: Seq<Seq<char>>) -> Seq<Seq<char>>
    decreases args.len(),
{
    if args.len() == 0 {
        Seq::empty()
    } else if args.last().len() == 0 {
        nonempty_args(args.drop_last())
    } else {
        nonempty_args(args.drop_last()).push(args.last())
    }
}

/// The arguments of an elevated restart: the flag, then the program's
/// arguments after its name that are not empty.
pub fn elevation_args(args: &[String]) -> (r: Vec<String>)
    requires
        args@.len() >= 1,
    ensures
        crate::text::string_seqs(r@) == seq![elevation_flag()] + nonempty_args(crate::text::string_seqs(args@).drop_first()),
{
    let ghost a = crate::text::string_seqs(args@).drop_first();
    let mut r: Vec<String> = Vec::new();
    r.push(crate::text::owned("--elevated-for-symlink"));
    let mut i: usize = 1;
    while i < args.len()
        invariant
            1 <= i <= args@.len(),
            a == crate::text::string_seqs(args@).drop_first(),
            crate::text::string_seqs(r@) == seq![elevation_flag()] + nonempty_args(a.take(i - 1)),
        decreases args@.len() - i,
    {
        proof {
            assert(a.take(i as int).drop_last() =~= a.take(i - 1));
            assert(a.take(i as int).last() == args@[i as int]@);
        }
        let ghost before = r@;
        if args[i].unicode_len() > 0 {
            r.push(crate::text::owned(args[i].as_str()));
            assert(crate::text::string_seqs(r@) =~= crate::text::string_seqs(before).push(args@[i as int]@));
        }
        i = i + 1;
    }
    assert(a.take(args@.len() - 1) =~= a);
    r
}

/// Whether the arguments hold the elevation flag.
pub fn was_started_for_elevation(args: &[String]) -> (r: bool)
    ensures
        r == crate::text::string_seqs(args@).contains(elevation_flag()),
{
    let mut i: usize = 0;
    while i < args.len()
        invariant
            i <= args@.len(),
            forall|j: int| 0 <= j < i ==> args@[j]@ != elevation_flag(),
        decreases args@.len() - i,
    {
        if str_eq(args[i].as_str(), "--elevated-for-symlink") {
            assert(crate::text::string_seqs(args@)[i as int] == elevation_flag());
            return true;
        }
        i = i + 1;
    }
    assert forall|j: int| 0 <= j < crate::text::string_seqs(args@).len() implies crate::text::string_seqs(args@)[j]
        != elevation_flag() by {
        assert(crate::text::string_seqs(args@)[j] == args@[j]@);
    }
    false
}

// ---------------------------------------------------------------------------
// File times
// ---------------------------------------------------------------------------

/// A point in time as seconds and nanoseconds since the Unix epoch.
#[derive(Debug, Clone, Copy, PartialEq, Eq, Structural)]
pub struct EpochTime {
    pub seconds: u64,
    pub nanos: u32,
}

/// The times of a file saved before it is copied or moved: the creation
/// time where the platform has one, and the modification time. Times
/// before the epoch count as the epoch.
#[derive(Debug, Clone, Copy, PartialEq, Eq, Structural)]
pub struct FileTimes {
    pub created: Option<EpochTime>,
    pub modified: EpochTime,
}

/// A Windows `FILETIME`: 100-nanosecond ticks since 1601-01-01, split
/// into its low and high 32 bits.
#[derive(Debug, Clone, Copy, PartialEq, Eq, Structural)]
pub struct FileTime {
    pub low_date_time: u32,
    pub high_date_time: u32,
}

/// Ticks between 1601-01-01 and the Unix epoch.
pub const UNIX_TO_FILETIME_TICKS: u64 = 116_444_736_000_000_000u64;

/// The ticks of a time since the epoch.
pub open spec fn filetime_ticks(t: EpochTime) -> int {
    UNIX_TO_FILETIME_TICKS + t.seconds * 10_000_000 + t.nanos / 100
}

/// The ticks of a time fit in 64 bits.
pub open spec fn filetime_in_range(t: EpochTime) -> bool {
    filetime_ticks(t) <= u64::MAX
}

/// The ticks of a `FILETIME`.
pub open spec fn ticks_of(f: FileTime) -> int {
    f.high_date_time * 0x1_0000_0000 + f.low_date_time
}

/// Converts a time to a `FILETIME` (see [`filetime_ticks`]).
pub fn to_filetime(time: EpochTime) -> (r: FileTime)
    requires
        filetime_in_range(time),
    ensures
        ticks_of(r) == filetime_ticks(time),
{
    let ticks: u64 = UNIX_TO_FILETIME_TICKS + time.seconds * 10_000_000 + (time.nanos / 100) as u64;
    let low: u32 = (ticks % 0x1_0000_0000) as u32;
    let high: u32 = (ticks / 0x1_0000_0000) as u32;
    assert(ticks == (ticks / 0x1_0000_0000) * 0x1_0000_0000 + ticks % 0x1_0000_0000) by (nonlinear_arith);
    assert(ticks / 0x1_0000_0000 < 0x1_0000_0000) by (nonlinear_arith)
        requires
            ticks <= u64::MAX,
    ;
    FileTime { low_date_time: low, high_date_time: high }
}

} // verus!
