//! What the permission bits of a file tell.

use vstd::prelude::*;
use vstd::string::StringExecFns;

verus! {

/// The bits that mark a symbolic link in the mode of a file.
pub const LINK_BITS: u32 = 0o120000;

/// Reads the constant `libc::S_IFLNK`. Believed of it, as the source of the
/// crate shows: it is `0o120000`.
#[verifier::external_body]
fn s_iflnk() -> (r: u32)
    ensures
        r == LINK_BITS,
{
    libc::S_IFLNK as u32
}

/// Whether the permission bits `mode` let anyone run the file.
pub open spec fn spec_is_executable(mode: u32) -> bool {
    mode & 0o111 != 0
}

/// Whether the permission bits `mode` let anyone run the file.
pub fn is_executable(mode: u32) -> (r: bool)
    ensures
        r == spec_is_executable(mode),
{
    mode & 0o111 != 0
}

/// Whether the bits of `mode` above the permissions are all among those
/// that mark a symbolic link.
pub open spec fn spec_is_link_mode(mode: u32) -> bool {
    (mode >> 9u32) & (LINK_BITS >> 9u32) == mode >> 9u32
}

/// Whether the bits of `mode` above the permissions are all among those
/// that mark a symbolic link.
pub fn is_link_mode(mode: u32) -> (r: bool)
    ensures
        r == spec_is_link_mode(mode),
{
    let link = s_iflnk();
    (mode >> 9u32) & (link >> 9u32) == mode >> 9u32
}

/// The letter that stands for the kind of file in the text of a mode: `d`
/// for a directory, `l` for a link, `b` and `c` for the two kinds of
/// devices, `p` for a pipe, `s` for a socket, and a dash for anything
/// else.
pub open spec fn spec_kind_letter(mode: u32) -> char {
    let kind = mode & 0o170000;
    if kind == 0o040000 {
        'd'
    } else if kind == 0o120000 {
        'l'
    } else if kind == 0o060000 {
        'b'
    } else if kind == 0o020000 {
        'c'
    } else if kind == 0o010000 {
        'p'
    } else if kind == 0o140000 {
        's'
    } else {
        '-'
    }
}

/// `letter` where `mode` has the bit `bit`, a dash where it has not.
pub open spec fn spec_bit_letter(mode: u32, bit: u32, letter: char) -> char {
    if mode & bit != 0 {
        letter
    } else {
        '-'
    }
}

/// The mode as a listing of files writes it: the letter of the kind, then
/// `r`, `w` and `x` or a dash for what the owner, the group and all others
/// may do.
pub open spec fn spec_stringify_mode(mode: u32) -> Seq<char> {
    seq![
        spec_kind_letter(mode),
        spec_bit_letter(mode, 0o400, 'r'),
        spec_bit_letter(mode, 0o200, 'w'),
        spec_bit_letter(mode, 0o100, 'x'),
        spec_bit_letter(mode, 0o040, 'r'),
        spec_bit_letter(mode, 0o020, 'w'),
        spec_bit_letter(mode, 0o010, 'x'),
        spec_bit_letter(mode, 0o004, 'r'),
        spec_bit_letter(mode, 0o002, 'w'),
        spec_bit_letter(mode, 0o001, 'x'),
    ]
}

/// The text of one permission.
fn bit_text(mode: u32, bit: u32, text: &'static str, letter: char) -> (r: &'static str)
    requires
        text@ == seq![letter],
    ensures
        r@ == seq![spec_bit_letter(mode, bit, letter)],
{
    proof {
        reveal_strlit("-");
    }
    assert("-"@ =~= seq!['-']);
    if mode & bit != 0 {
        text
    } else {
        "-"
    }
}

/// The mode as a listing of files writes it (see `spec_stringify_mode`).
pub fn stringify_mode(mode: u32) -> (r: String)
    ensures
        r@ == spec_stringify_mode(mode),
{
    proof {
        reveal_strlit("d");
        reveal_strlit("l");
        reveal_strlit("b");
        reveal_strlit("c");
        reveal_strlit("p");
        reveal_strlit("s");
        reveal_strlit("-");
        reveal_strlit("r");
        reveal_strlit("w");
        reveal_strlit("x");
    }
    assert("d"@ =~= seq!['d'] && "l"@ =~= seq!['l'] && "b"@ =~= seq!['b'] && "c"@ =~= seq!['c']);
    assert("p"@ =~= seq!['p'] && "s"@ =~= seq!['s'] && "-"@ =~= seq!['-']);
    assert("r"@ =~= seq!['r'] && "w"@ =~= seq!['w'] && "x"@ =~= seq!['x']);
    let kind = mode & 0o170000;
    let letter: &str = if kind == 0o040000 {
        "d"
    } else if kind == 0o120000 {
        "l"
    } else if kind == 0o060000 {
        "b"
    } else if kind == 0o020000 {
        "c"
    } else if kind == 0o010000 {
        "p"
    } else if kind == 0o140000 {
        "s"
    } else {
        "-"
    };
    let mut text = letter.to_owned();
    text.append(bit_text(mode, 0o400, "r", 'r'));
    text.append(bit_text(mode, 0o200, "w", 'w'));
    text.append(bit_text(mode, 0o100, "x", 'x'));
    text.append(bit_text(mode, 0o040, "r", 'r'));
    text.append(bit_text(mode, 0o020, "w", 'w'));
    text.append(bit_text(mode, 0o010, "x", 'x'));
    text.append(bit_text(mode, 0o004, "r", 'r'));
    text.append(bit_text(mode, 0o002, "w", 'w'));
    text.append(bit_text(mode, 0o001, "x", 'x'));
    assert(text@ =~= spec_stringify_mode(mode));
    text
}

} // verus!
