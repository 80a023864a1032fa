//! Bytes on their way to a reader.
use crate::scan::{after_prefix, law_prefixes, strip_prefix};
use crate::text::{chars_of, string_of};
use vstd::prelude::*;

verus! {

/// The lesser of two lengths.
pub open spec fn lesser(a: nat, b: nat) -> nat {
    if a <= b {
        a
    } else {
        b
    }
}

/// A reader's buffer after as many bytes of `data` as fit were put at its
/// start.
pub open spec fn filled(buf: Seq<u8>, data: Seq<u8>) -> Seq<u8> {
    let n = lesser(data.len(), buf.len()) as int;
    data.take(n) + buf.skip(n)
}

/// Puts as many bytes of `data` as fit at the start of `buf`. Gives their
/// number.
pub fn fill(buf: &mut [u8], data: &[u8]) -> (r: usize)
    ensures
        final(buf)@ == filled(old(buf)@, data@),
        r == lesser(data@.len(), old(buf)@.len()),
{
    let ghost before = buf@;
    let n: usize = if data.len() <= buf.len() {
        data.len()
    } else {
        buf.len()
    };
    let mut i: usize = 0;
    while i < n
        invariant
            i <= n,
            n == lesser(data@.len(), before.len()),
            buf@.len() == before.len(),
            forall|k: int| 0 <= k < i ==> buf@[k] == data@[k],
            forall|k: int| i <= k < before.len() ==> buf@[k] == before[k],
        decreases n - i,
    {
        buf[i] = data[i];
        i = i + 1;
    }
    assert(buf@ =~= filled(before, data@));
    n
}

/// Moves as many bytes as fit from the start of `waiting` to the start of
/// `buf`. Gives their number.
pub fn drain_into(waiting: &mut Vec<u8>, buf: &mut [u8]) -> (r: usize)
    ensures
        final(buf)@ == filled(old(buf)@, old(waiting)@),
        r == lesser(old(waiting)@.len(), old(buf)@.len()),
        final(waiting)@ == old(waiting)@.skip(r as int),
{
    let n: usize = fill(buf, waiting.as_slice());
    let rest = waiting.split_off(n);
    *waiting = rest;
    assert(waiting@ =~= old(waiting)@.skip(n as int));
    n
}

/// The file that a device path of the form `file://...` names.
pub open spec fn file_of(path: Seq<char>) -> Option<Seq<char>> {
    after_prefix(path, "file://"@)
}

/// The file that a device path of the form `file://...` names.
pub fn backing_file(path: &str) -> (r: Option<String>)
    ensures
        match r {
            Some(file) => file_of(path@) == Some(file@),
            None => file_of(path@) is None,
        },
{
    let chars = chars_of(path);
    let scheme = chars_of("file://");
    match strip_prefix(chars.as_slice(), scheme.as_slice()) {
        Some(rest) => Some(string_of(rest)),
        None => None,
    }
}

/// Two reads in a row give what one read into both buffers together would.
pub proof fn law_reads_go_on(waiting: Seq<u8>, first: Seq<u8>, second: Seq<u8>)
    ensures
        ({
            let n = lesser(waiting.len(), first.len()) as int;
            let rest = waiting.skip(n);
            let m = lesser(rest.len(), second.len()) as int;
            filled(first, waiting).take(n) + filled(second, rest).take(m) == waiting.take(n + m)
        }),
{
    let n = lesser(waiting.len(), first.len()) as int;
    let rest = waiting.skip(n);
    let m = lesser(rest.len(), second.len()) as int;
    assert(filled(first, waiting).take(n) + filled(second, rest).take(m) =~= waiting.take(n + m));
}

/// A read fills the buffer from its start with as many bytes as wait and fit,
/// in their order; the rest of the buffer stays as it was.
pub proof fn law_a_read_fills(buf: Seq<u8>, data: Seq<u8>, i: int)
    requires
        0 <= i < buf.len(),
    ensures
        filled(buf, data).len() == buf.len(),
        i < data.len() ==> filled(buf, data)[i] == data[i],
        i >= data.len() ==> filled(buf, data)[i] == buf[i],
        lesser(data.len(), buf.len()) <= data.len(),
        lesser(data.len(), buf.len()) <= buf.len(),
        lesser(data.len(), buf.len()) == data.len() || lesser(data.len(), buf.len()) == buf.len(),
{
}

/// A path names a file exactly if it starts with `file://`; the file is what
/// follows.
pub proof fn law_files(path: Seq<char>, file: Seq<char>)
    ensures
        file_of(seq!['f', 'i', 'l', 'e', ':', '/', '/'] + file) == Some(file),
        file_of(path) matches Some(f) ==> path == seq!['f', 'i', 'l', 'e', ':', '/', '/'] + f,
{
    reveal_strlit("file://");
    assert("file://"@ =~= seq!['f', 'i', 'l', 'e', ':', '/', '/']);
    law_prefixes(file, "file://"@);
    law_prefixes(path, "file://"@);
}

} // verus!
