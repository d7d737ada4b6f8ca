//! Text of directory listings: decimal numbers, permission strings, long names.
use vstd::prelude::*;

verus! {

pub open spec fn digit_char(d: nat) -> char {
    if d == 0 {
        '0'
    } else if d == 1 {
        '1'
    } else if d == 2 {
        '2'
    } else if d == 3 {
        '3'
    } else if d == 4 {
        '4'
    } else if d == 5 {
        '5'
    } else if d == 6 {
        '6'
    } else if d == 7 {
        '7'
    } else if d == 8 {
        '8'
    } else {
        '9'
    }
}

/// The decimal digits of `n`, most significant first, without leading zeros.
pub open spec fn decimal(n: nat) -> Seq<char>
    decreases n,
{
    if n < 10 {
        seq![digit_char(n)]
    } else {
        decimal(n / 10).push(digit_char(n % 10))
    }
}

fn digit_str(d: u64) -> (r: &'static str)
    requires
        d < 10,
    ensures
        r@ == seq![digit_char(d as nat)],
{
    proof {
        reveal_strlit("0");
        reveal_strlit("1");
        reveal_strlit("2");
        reveal_strlit("3");
        reveal_strlit("4");
        reveal_strlit("5");
        reveal_strlit("6");
        reveal_strlit("7");
        reveal_strlit("8");
        reveal_strlit("9");
    }
    let r = if d == 0 {
        "0"
    } else if d == 1 {
        "1"
    } else if d == 2 {
        "2"
    } else if d == 3 {
        "3"
    } else if d == 4 {
        "4"
    } else if d == 5 {
        "5"
    } else if d == 6 {
        "6"
    } else if d == 7 {
        "7"
    } else if d == 8 {
        "8"
    } else {
        "9"
    };
    assert(r@ =~= seq![digit_char(d as nat)]);
    r
}

/// Appends the decimal digits of `n`.
pub fn push_decimal(out: &mut String, n: u64)
    ensures
        final(out)@ == old(out)@ + decimal(n as nat),
    decreases n,
{
    if n >= 10 {
        push_decimal(out, n / 10);
    }
    out.append(digit_str(n % 10));
    proof {
        if n >= 10 {
            assert(old(out)@ + decimal(n as nat) =~= old(out)@ + decimal((n / 10) as nat) + seq![
                digit_char((n % 10) as nat),
            ]);
        }
    }
}

/// `c` when `on`, else `-`.
pub open spec fn perm_char(on: bool, c: char) -> char {
    if on {
        c
    } else {
        '-'
    }
}

/// The `rwxrwxrwx` rendering of the permission bits of `mode`: owner, group, others.
pub open spec fn rwx_text(mode: u32) -> Seq<char> {
    seq![
        perm_char(mode & 0o400 != 0, 'r'),
        perm_char(mode & 0o200 != 0, 'w'),
        perm_char(mode & 0o100 != 0, 'x'),
        perm_char(mode & 0o040 != 0, 'r'),
        perm_char(mode & 0o020 != 0, 'w'),
        perm_char(mode & 0o010 != 0, 'x'),
        perm_char(mode & 0o004 != 0, 'r'),
        perm_char(mode & 0o002 != 0, 'w'),
        perm_char(mode & 0o001 != 0, 'x'),
    ]
}

fn push_flag(out: &mut String, on: bool, c: char)
    requires
        c == 'r' || c == 'w' || c == 'x',
    ensures
        final(out)@ == old(out)@.push(perm_char(on, c)),
{
    proof {
        reveal_strlit("r");
        reveal_strlit("w");
        reveal_strlit("x");
        reveal_strlit("-");
    }
    let s = if !on {
        "-"
    } else if c == 'r' {
        "r"
    } else if c == 'w' {
        "w"
    } else {
        "x"
    };
    assert(s@ =~= seq![perm_char(on, c)]);
    out.append(s);
}

/// The permission bits of `mode` as `rwxrwxrwx`, with `-` for each bit not set.
pub fn mode_to_rwx(mode: u32) -> (r: String)
    ensures
        r@ == rwx_text(mode),
{
    let mut rwx = String::new();
    push_flag(&mut rwx, mode & 0o400 != 0, 'r');
    push_flag(&mut rwx, mode & 0o200 != 0, 'w');
    push_flag(&mut rwx, mode & 0o100 != 0, 'x');
    push_flag(&mut rwx, mode & 0o040 != 0, 'r');
    push_flag(&mut rwx, mode & 0o020 != 0, 'w');
    push_flag(&mut rwx, mode & 0o010 != 0, 'x');
    push_flag(&mut rwx, mode & 0o004 != 0, 'r');
    push_flag(&mut rwx, mode & 0o002 != 0, 'w');
    push_flag(&mut rwx, mode & 0o001 != 0, 'x');
    assert(rwx@ =~= rwx_text(mode));
    rwx
}

/// The long-name line of a listing entry:
/// `<rwxrwxrwx> 1 user group <size> <time> <name>`.
pub open spec fn longname_text(mode: u32, size: u64, time: Seq<char>, name: Seq<char>) -> Seq<char> {
    rwx_text(mode) + " 1 user group "@ + decimal(size as nat) + seq![' '] + time + seq![' '] + name
}

/// Formats the long-name line of an entry; `time` is its modification time as
/// `MMM DD HH:MM`.
pub fn format_longname(mode: u32, size: u64, time: &str, name: &str) -> (r: String)
    ensures
        r@ == longname_text(mode, size, time@, name@),
{
    let mut out = mode_to_rwx(mode);
    out.append(" 1 user group ");
    push_decimal(&mut out, size);
    proof {
        reveal_strlit(" ");
    }
    out.append(" ");
    out.append(time);
    out.append(" ");
    out.append(name);
    assert(" "@ =~= seq![' ']);
    assert(out@ =~= longname_text(mode, size, time@, name@));
    out
}

} // verus!
