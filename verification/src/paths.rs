//! File names inside a session's output directory.

use vstd::prelude::*;
use vstd::string::*;

verus! {

/// The character of one decimal digit.
pub open spec fn digit_char(d: nat) -> char
    recommends
        d < 10,
{
    if d == 0 {
        '0'
    } else if d == 1 {
        '1'
    } else if d == 2 {
        '2'
    } else if d == 3 {
        '3'
    } else if d == 4 {
        '4'
    } else if d == 5 {
        '5'
    } else if d == 6 {
        '6'
    } else if d == 7 {
        '7'
    } else if d == 8 {
        '8'
    } else {
        '9'
    }
}

/// The decimal numeral of `n`, without leading zeros.
pub open spec fn decimal(n: nat) -> Seq<char>
    decreases n,
{
    if n < 10 {
        seq![digit_char(n)]
    } else {
        decimal(n / 10).push(digit_char(n % 10))
    }
}

/// `<dir>/<name>`.
pub open spec fn joined(dir: Seq<char>, name: Seq<char>) -> Seq<char> {
    dir + seq!['/'] + name
}

/// `<n>.m4s`, the file name of media chunk `n`.
pub open spec fn chunk_name(n: nat) -> Seq<char> {
    decimal(n) + seq!['.', 'm', '4', 's']
}

/// `init.mp4`, the file name of the initialization segment.
pub open spec fn init_name() -> Seq<char> {
    seq!['i', 'n', 'i', 't', '.', 'm', 'p', '4']
}

/// `stderr.log`, the file name of the transcoder's log.
pub open spec fn stderr_name() -> Seq<char> {
    seq!['s', 't', 'd', 'e', 'r', 'r', '.', 'l', 'o', 'g']
}

/// `<name>.vtt`, the file name of a subtitle track.
pub open spec fn subtitle_name(name: Seq<char>) -> Seq<char> {
    name + seq!['.', 'v', 't', 't']
}

fn digit_str(d: u32) -> (r: &'static str)
    requires
        d < 10,
    ensures
        r@ == seq![digit_char(d as nat)],
{
    proof {
        reveal_strlit("0");
        reveal_strlit("1");
        reveal_strlit("2");
        reveal_strlit("3");
        reveal_strlit("4");
        reveal_strlit("5");
        reveal_strlit("6");
        reveal_strlit("7");
        reveal_strlit("8");
        reveal_strlit("9");
    }
    let r = if d == 0 {
        "0"
    } else if d == 1 {
        "1"
    } else if d == 2 {
        "2"
    } else if d == 3 {
        "3"
    } else if d == 4 {
        "4"
    } else if d == 5 {
        "5"
    } else if d == 6 {
        "6"
    } else if d == 7 {
        "7"
    } else if d == 8 {
        "8"
    } else {
        "9"
    };
    assert(r@ =~= seq![digit_char(d as nat)]);
    r
}

/// Writes `n` in decimal.
pub fn to_decimal(n: u32) -> (r: String)
    ensures
        r@ == decimal(n as nat),
    decreases n,
{
    if n < 10 {
        String::from_str(digit_str(n))
    } else {
        let head = to_decimal(n / 10);
        let r = head.concat(digit_str(n % 10));
        assert(r@ =~= decimal(n as nat));
        r
    }
}

/// Builds `<dir>/<name>`.
pub fn join(dir: &String, name: &str) -> (r: String)
    ensures
        r@ == joined(dir@, name@),
{
    proof {
        reveal_strlit("/");
    }
    let r = dir.clone().concat("/").concat(name);
    assert(r@ =~= joined(dir@, name@));
    r
}

/// Builds the file name of media chunk `n`.
pub fn chunk_file_name(n: u32) -> (r: String)
    ensures
        r@ == chunk_name(n as nat),
{
    proof {
        reveal_strlit(".m4s");
    }
    let r = to_decimal(n).concat(".m4s");
    assert(r@ =~= chunk_name(n as nat));
    r
}

/// Builds the file name of the subtitle track `name`.
pub fn subtitle_file_name(name: &str) -> (r: String)
    ensures
        r@ == subtitle_name(name@),
{
    proof {
        reveal_strlit(".vtt");
    }
    let r = String::from_str(name).concat(".vtt");
    assert(r@ =~= subtitle_name(name@));
    r
}

/// The file name of the transcoder's log.
pub fn stderr_file_name() -> (r: &'static str)
    ensures
        r@ == stderr_name(),
{
    proof {
        reveal_strlit("stderr.log");
    }
    let r = "stderr.log";
    assert(r@ =~= stderr_name());
    r
}

/// The file name of the initialization segment.
pub fn init_file_name() -> (r: &'static str)
    ensures
        r@ == init_name(),
{
    proof {
        reveal_strlit("init.mp4");
    }
    let r = "init.mp4";
    assert(r@ =~= init_name());
    r
}

/// The digit that a character stands for, if it is a decimal digit.
pub open spec fn digit_of(c: char) -> Option<nat> {
    if c == '0' {
        Some(0)
    } else if c == '1' {
        Some(1)
    } else if c == '2' {
        Some(2)
    } else if c == '3' {
        Some(3)
    } else if c == '4' {
        Some(4)
    } else if c == '5' {
        Some(5)
    } else if c == '6' {
        Some(6)
    } else if c == '7' {
        Some(7)
    } else if c == '8' {
        Some(8)
    } else if c == '9' {
        Some(9)
    } else {
        None
    }
}

/// The number that a row of digits writes; other characters count as zero.
pub open spec fn value(s: Seq<char>) -> nat
    decreases s.len(),
{
    if s.len() == 0 {
        0
    } else {
        value(s.drop_last()) * 10 + match digit_of(s.last()) {
            Some(d) => d,
            None => 0,
        }
    }
}

/// `name` is the file name of media chunk `n`.
pub open spec fn names_chunk(name: Seq<char>, n: nat) -> bool {
    name == chunk_name(n)
}

/// `name` is the file name of a media chunk at or after `from`: one of the
/// files that moving a session to `from` removes.
pub open spec fn stale_chunk(name: Seq<char>, from: u32) -> bool {
    exists|n: nat| from <= n <= u32::MAX && #[trigger] names_chunk(name, n)
}

/// A numeral is made of digits and writes its number.
pub proof fn lemma_decimal(n: nat)
    ensures
        decimal(n).len() >= 1,
        forall|i: int| 0 <= i < decimal(n).len() ==> digit_of(#[trigger] decimal(n)[i]) is Some,
        value(decimal(n)) == n,
    decreases n,
{
    if n < 10 {
        assert(decimal(n).drop_last() =~= Seq::<char>::empty());
        assert(value(decimal(n).drop_last()) == 0);
    } else {
        lemma_decimal(n / 10);
        assert(decimal(n).drop_last() =~= decimal(n / 10));
    }
}

/// A chunk's file name is its numeral followed by `.m4s`.
pub proof fn lemma_chunk_name(name: Seq<char>, n: nat)
    requires
        names_chunk(name, n),
    ensures
        name.len() >= 5,
        name.subrange(0, name.len() - 4) == decimal(n),
        name[name.len() - 4] == '.',
        name[name.len() - 3] == 'm',
        name[name.len() - 2] == '4',
        name[name.len() - 1] == 's',
        value(name.subrange(0, name.len() - 4)) == n,
        forall|i: int| 0 <= i < name.len() - 4 ==> digit_of(#[trigger] name[i]) is Some,
{
    lemma_decimal(n);
    assert(name.subrange(0, name.len() - 4) =~= decimal(n));
    assert forall|i: int| 0 <= i < name.len() - 4 implies digit_of(#[trigger] name[i]) is Some by {
        assert(name[i] == decimal(n)[i]);
    }
}

/// A row of digits writes no less than any of its beginnings.
pub proof fn lemma_value_grows(s: Seq<char>, i: int)
    requires
        0 <= i <= s.len(),
    ensures
        value(s.subrange(0, i)) <= value(s),
    decreases s.len(),
{
    if i == s.len() {
        assert(s.subrange(0, i) =~= s);
    } else {
        lemma_value_grows(s.drop_last(), i);
        assert(s.drop_last().subrange(0, i) =~= s.subrange(0, i));
    }
}

/// Moving a session to chunk `from` removes the file of every chunk at or
/// after `from` and keeps the init segment.
pub proof fn lemma_reset_removes_later_chunks(from: u32, n: u32)
    ensures
        n >= from ==> stale_chunk(chunk_name(n as nat), from),
        n < from ==> !stale_chunk(chunk_name(n as nat), from),
        !stale_chunk(init_name(), from),
{
    if n >= from {
        assert(names_chunk(chunk_name(n as nat), n as nat));
    } else {
        assert forall|m: nat| from <= m <= u32::MAX implies !names_chunk(
            chunk_name(n as nat),
            m,
        ) by {
            if names_chunk(chunk_name(n as nat), m) {
                lemma_chunk_name(chunk_name(n as nat), m);
                assert(names_chunk(chunk_name(n as nat), n as nat));
                lemma_chunk_name(chunk_name(n as nat), n as nat);
            }
        }
    }
    assert forall|m: nat| from <= m <= u32::MAX implies !names_chunk(init_name(), m) by {
        if names_chunk(init_name(), m) {
            lemma_chunk_name(init_name(), m);
            assert(init_name()[0] == 'i');
        }
    }
}

fn digit(c: char) -> (r: Option<u64>)
    ensures
        r is Some <==> digit_of(c) is Some,
        r is Some ==> r->0 == digit_of(c)->0 && r->0 < 10,
{
    if c == '0' {
        Some(0)
    } else if c == '1' {
        Some(1)
    } else if c == '2' {
        Some(2)
    } else if c == '3' {
        Some(3)
    } else if c == '4' {
        Some(4)
    } else if c == '5' {
        Some(5)
    } else if c == '6' {
        Some(6)
    } else if c == '7' {
        Some(7)
    } else if c == '8' {
        Some(8)
    } else if c == '9' {
        Some(9)
    } else {
        None
    }
}

/// Reads the chunk number out of a file name: `Some(n)` for `<n>.m4s`
/// with `n` written without leading zeros, `None` for any other name.
pub fn parse_chunk_name(name: &str) -> (r: Option<u32>)
    ensures
        r is Some ==> names_chunk(name@, r->0 as nat),
        r is None ==> forall|n: nat| n <= u32::MAX ==> !names_chunk(name@, n),
{
    let len: usize = name.unicode_len();
    if len < 5 {
        proof {
            assert forall|n: nat| n <= u32::MAX implies !names_chunk(name@, n) by {
                if names_chunk(name@, n) {
                    lemma_chunk_name(name@, n);
                }
            }
        }
        return None;
    }
    let stem: usize = len - 4;
    if name.get_char(stem) != '.' || name.get_char(stem + 1) != 'm' || name.get_char(stem + 2) != '4'
        || name.get_char(stem + 3) != 's' {
        proof {
            assert forall|n: nat| n <= u32::MAX implies !names_chunk(name@, n) by {
                if names_chunk(name@, n) {
                    lemma_chunk_name(name@, n);
                }
            }
        }
        return None;
    }
    let mut acc: u64 = 0;
    let mut i: usize = 0;
    while i < stem
        invariant
            i <= stem,
            stem == name@.len() - 4,
            acc == value(name@.subrange(0, i as int)),
            acc <= u32::MAX,
        decreases stem - i,
    {
        let ghost next = name@.subrange(0, i + 1);
        assert(next.drop_last() =~= name@.subrange(0, i as int));
        assert(next.last() == name@[i as int]);
        let d = match digit(name.get_char(i)) {
            Some(d) => d,
            None => {
                proof {
                    assert forall|n: nat| n <= u32::MAX implies !names_chunk(name@, n) by {
                        if names_chunk(name@, n) {
                            lemma_chunk_name(name@, n);
                            assert(digit_of(name@[i as int]) is Some);
                        }
                    }
                }
                return None;
            },
        };
        let grown: u64 = acc * 10 + d;
        assert(grown == value(next));
        if grown > 0xffff_ffff {
            proof {
                assert forall|n: nat| n <= u32::MAX implies !names_chunk(name@, n) by {
                    if names_chunk(name@, n) {
                        lemma_chunk_name(name@, n);
                        let digits = name@.subrange(0, stem as int);
                        lemma_value_grows(digits, i + 1);
                        assert(digits.subrange(0, i + 1) =~= next);
                    }
                }
            }
            return None;
        }
        acc = grown;
        i += 1;
    }
    let n: u32 = acc as u32;
    let built = chunk_file_name(n);
    if built == String::from_str(name) {
        Some(n)
    } else {
        proof {
            assert forall|m: nat| m <= u32::MAX implies !names_chunk(name@, m) by {
                if names_chunk(name@, m) {
                    lemma_chunk_name(name@, m);
                }
            }
        }
        None
    }
}

/// Whether moving a session to chunk `from` removes the file `name` from
/// its directory: so for the media chunks at or after `from`, and for
/// nothing else.
pub fn is_stale_chunk(name: &str, from: u32) -> (r: bool)
    ensures
        r == stale_chunk(name@, from),
{
    match parse_chunk_name(name) {
        Some(n) => {
            proof {
                if n >= from {
                    assert(names_chunk(name@, n as nat));
                } else {
                    assert forall|m: nat| from <= m <= u32::MAX implies !names_chunk(name@, m) by {
                        if names_chunk(name@, m) {
                            lemma_chunk_name(name@, m);
                            lemma_chunk_name(name@, n as nat);
                        }
                    }
                }
            }
            n >= from
        },
        None => false,
    }
}


} // verus!
