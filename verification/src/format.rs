//! Rendering numbers and file metadata as text: decimal and hexadecimal
//! numerals, `ls`-style permission strings, filesystem names and owners.
use vstd::prelude::*;
use crate::text::{owned, string_of};

verus! {

/// The digits of base 16, upper case; the first ten are the decimal digits.
pub open spec fn upper_digits() -> Seq<char> {
    seq!['0', '1', '2', '3', '4', '5', '6', '7', '8', '9', 'A', 'B', 'C', 'D', 'E', 'F']
}

/// The digits of base 16, lower case.
pub open spec fn lower_digits() -> Seq<char> {
    seq!['0', '1', '2', '3', '4', '5', '6', '7', '8', '9', 'a', 'b', 'c', 'd', 'e', 'f']
}

/// The numeral of `n` in base `base` (2 to 16) with upper-case digits and no
/// leading zeros (`0` for zero), as `{}` and `{:X}` print it.
pub open spec fn numeral(n: nat, base: nat) -> Seq<char>
    recommends
        2 <= base <= 16,
    decreases n,
{
    if n < base || base < 2 {
        seq![upper_digits()[n as int]]
    } else {
        proof {
            lemma_quotient_smaller(n, base);
        }
        numeral(n / base, base).push(upper_digits()[(n % base) as int])
    }
}

/// Dividing by a base of at least two makes a number at least the base smaller.
pub proof fn lemma_quotient_smaller(n: nat, base: nat)
    requires
        2 <= base <= n,
    ensures
        n / base < n,
{
    assert(n / base < n) by (nonlinear_arith)
        requires
            2 <= base <= n,
    ;
}

/// The decimal numeral of `n`.
pub open spec fn decimal(n: nat) -> Seq<char> {
    numeral(n, 10)
}

/// The upper-case hexadecimal numeral of `n`.
pub open spec fn hex_upper(n: nat) -> Seq<char> {
    numeral(n, 16)
}

/// `c` where `mode` has a bit of `mask` set, `-` otherwise.
pub open spec fn mode_bit(mode: u32, mask: u32, c: char) -> char {
    if mode & mask != 0 {
        c
    } else {
        '-'
    }
}

/// The permission string of a file mode as `ls -l` writes it: `l` for a
/// symbolic link (`-` for anything else), then read, write and execute for
/// owner, group and others.
pub open spec fn mode_string(mode: u32) -> Seq<char> {
    seq![
        if mode & 0o170000 == 0o120000 { 'l' } else { '-' },
        mode_bit(mode, 0o400, 'r'),
        mode_bit(mode, 0o200, 'w'),
        mode_bit(mode, 0o100, 'x'),
        mode_bit(mode, 0o040, 'r'),
        mode_bit(mode, 0o020, 'w'),
        mode_bit(mode, 0o010, 'x'),
        mode_bit(mode, 0o004, 'r'),
        mode_bit(mode, 0o002, 'w'),
        mode_bit(mode, 0o001, 'x'),
    ]
}

/// The permission string has ten characters: `l` exactly for a symbolic link
/// (`-` otherwise), then one character per permission bit, from the owner's
/// read bit 0o400 down to the others' execute bit 0o001, each showing its own
/// letter where its bit is set and `-` where it is clear.
pub proof fn lemma_mode_string_bits(mode: u32)
    ensures
        mode_string(mode).len() == 10,
        mode_string(mode)[0] == (if mode & 0o170000 == 0o120000 { 'l' } else { '-' }),
        mode_string(mode)[1] == (if mode & 0o400 != 0 { 'r' } else { '-' }),
        mode_string(mode)[2] == (if mode & 0o200 != 0 { 'w' } else { '-' }),
        mode_string(mode)[3] == (if mode & 0o100 != 0 { 'x' } else { '-' }),
        mode_string(mode)[4] == (if mode & 0o040 != 0 { 'r' } else { '-' }),
        mode_string(mode)[5] == (if mode & 0o020 != 0 { 'w' } else { '-' }),
        mode_string(mode)[6] == (if mode & 0o010 != 0 { 'x' } else { '-' }),
        mode_string(mode)[7] == (if mode & 0o004 != 0 { 'r' } else { '-' }),
        mode_string(mode)[8] == (if mode & 0o002 != 0 { 'w' } else { '-' }),
        mode_string(mode)[9] == (if mode & 0o001 != 0 { 'x' } else { '-' }),
{
}

/// Each permission position depends on its own bit alone: two modes with the
/// same file type and the same bit at a position show the same character there.
pub proof fn lemma_mode_string_positions_independent(a: u32, b: u32)
    ensures
        (a & 0o170000 == 0o120000) == (b & 0o170000 == 0o120000) ==> mode_string(a)[0]
            == mode_string(b)[0],
        (a & 0o400 == 0) == (b & 0o400 == 0) ==> mode_string(a)[1] == mode_string(b)[1],
        (a & 0o200 == 0) == (b & 0o200 == 0) ==> mode_string(a)[2] == mode_string(b)[2],
        (a & 0o100 == 0) == (b & 0o100 == 0) ==> mode_string(a)[3] == mode_string(b)[3],
        (a & 0o040 == 0) == (b & 0o040 == 0) ==> mode_string(a)[4] == mode_string(b)[4],
        (a & 0o020 == 0) == (b & 0o020 == 0) ==> mode_string(a)[5] == mode_string(b)[5],
        (a & 0o010 == 0) == (b & 0o010 == 0) ==> mode_string(a)[6] == mode_string(b)[6],
        (a & 0o004 == 0) == (b & 0o004 == 0) ==> mode_string(a)[7] == mode_string(b)[7],
        (a & 0o002 == 0) == (b & 0o002 == 0) ==> mode_string(a)[8] == mode_string(b)[8],
        (a & 0o001 == 0) == (b & 0o001 == 0) ==> mode_string(a)[9] == mode_string(b)[9],
{
    lemma_mode_string_bits(a);
    lemma_mode_string_bits(b);
}

/// The name of the filesystem type that `statfs` reports as `magic`; an unknown
/// type is shown by its number.
pub open spec fn filesystem_label(magic: u64) -> Seq<char> {
    if magic == 0xEF53 {
        "ext4/ext3/ext2"@
    } else if magic == 0x9123683E {
        "btrfs"@
    } else if magic == 0x01021994 {
        "tmpfs"@
    } else if magic == 0x58465342 {
        "xfs"@
    } else if magic == 0x2FC12FC1 {
        "zfs"@
    } else if magic == 0x6969 {
        "nfs"@
    } else if magic == 0x4d44 {
        "vfat"@
    } else if magic == 0x52654973 {
        "reiserfs"@
    } else if magic == 0x00000187 {
        "autofs"@
    } else if magic == 0x00000027 {
        "minix"@
    } else if magic == 0x4244 {
        "hfs"@
    } else if magic == 0x65735546 {
        "fuse"@
    } else {
        "Unknown (0x"@ + hex_upper(magic as nat) + ")"@
    }
}

/// The digit of value `d` (below 16), upper case.
fn upper_digit(d: u64) -> (c: char)
    requires
        d < 16,
    ensures
        c == upper_digits()[d as int],
{
    let digits: [char; 16] = [
        '0', '1', '2', '3', '4', '5', '6', '7', '8', '9', 'A', 'B', 'C', 'D', 'E', 'F',
    ];
    assert(digits@ == upper_digits());
    digits[d as usize]
}

/// The characters of the numeral of `n` in base `base`.
fn numeral_chars(n: u64, base: u64) -> (r: Vec<char>)
    requires
        2 <= base <= 16,
    ensures
        r@ == numeral(n as nat, base as nat),
    decreases n,
{
    if n < base {
        vec![upper_digit(n)]
    } else {
        proof {
            lemma_quotient_smaller(n as nat, base as nat);
        }
        let mut r = numeral_chars(n / base, base);
        r.push(upper_digit(n % base));
        r
    }
}

/// The decimal numeral of `n`, as `n.to_string()` writes it.
pub fn decimal_string(n: u64) -> (s: String)
    ensures
        s@ == decimal(n as nat),
{
    string_of(&numeral_chars(n, 10))
}

/// The upper-case hexadecimal numeral of `n`, as `format!("{:X}", n)` writes it.
pub fn hex_upper_string(n: u64) -> (s: String)
    ensures
        s@ == hex_upper(n as nat),
{
    string_of(&numeral_chars(n, 16))
}

/// The permission string of a file mode, as `ls -l` writes it.
pub fn format_mode(mode: u32) -> (s: String)
    ensures
        s@ == mode_string(mode),
{
    let masks: [(u32, char); 9] = [
        (0o400, 'r'),
        (0o200, 'w'),
        (0o100, 'x'),
        (0o040, 'r'),
        (0o020, 'w'),
        (0o010, 'x'),
        (0o004, 'r'),
        (0o002, 'w'),
        (0o001, 'x'),
    ];
    let mut v: Vec<char> = Vec::new();
    v.push(
        if mode & 0o170000 == 0o120000 {
            'l'
        } else {
            '-'
        },
    );
    for i in 0..9
        invariant
            v.len() == i + 1,
            v@[0] == mode_string(mode)[0],
            forall|k: int| 1 <= k <= i ==> v@[k] == mode_string(mode)[k],
            masks@ == seq![
                (0o400u32, 'r'),
                (0o200u32, 'w'),
                (0o100u32, 'x'),
                (0o040u32, 'r'),
                (0o020u32, 'w'),
                (0o010u32, 'x'),
                (0o004u32, 'r'),
                (0o002u32, 'w'),
                (0o001u32, 'x'),
            ],
    {
        let (mask, c) = masks[i];
        v.push(
            if mode & mask != 0 {
                c
            } else {
                '-'
            },
        );
    }
    assert(v@ =~= mode_string(mode));
    string_of(&v)
}

/// The name of the filesystem type `magic` that `statfs` reports.
pub fn filesystem_name(magic: u64) -> (s: String)
    ensures
        s@ == filesystem_label(magic),
{
    if magic == 0xEF53 {
        owned("ext4/ext3/ext2")
    } else if magic == 0x9123683E {
        owned("btrfs")
    } else if magic == 0x01021994 {
        owned("tmpfs")
    } else if magic == 0x58465342 {
        owned("xfs")
    } else if magic == 0x2FC12FC1 {
        owned("zfs")
    } else if magic == 0x6969 {
        owned("nfs")
    } else if magic == 0x4d44 {
        owned("vfat")
    } else if magic == 0x52654973 {
        owned("reiserfs")
    } else if magic == 0x00000187 {
        owned("autofs")
    } else if magic == 0x00000027 {
        owned("minix")
    } else if magic == 0x4244 {
        owned("hfs")
    } else if magic == 0x65735546 {
        owned("fuse")
    } else {
        let mut s = owned("Unknown (0x");
        let hex = hex_upper_string(magic);
        s.append(hex.as_str());
        s.append(")");
        s
    }
}

/// The name shown for a file's owner: the user name where the user database
/// knows the uid, the uid in decimal otherwise.
pub fn owner_label(user_name: Option<String>, uid: u32) -> (s: String)
    ensures
        user_name matches Some(n) ==> s == n,
        user_name is None ==> s@ == decimal(uid as nat),
{
    match user_name {
        Some(n) => n,
        None => decimal_string(uid as u64),
    }
}

} // verus!
