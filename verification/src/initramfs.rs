//! The initial file system: a tar archive in memory, mounted into the VFS.
//!
//! The archive is a run of 512-byte blocks. A header block names an entry
//! and gives its size; the contents follow, filled up to whole blocks. Only
//! regular files are mounted, and a header that begins with a zero byte ends
//! the archive.

use crate::vfs::{after_register, names_unique, register_file, FileModel, VfsRegistry};
use vstd::prelude::*;
use vstd::slice::slice_subrange;
use vstd::utf8::{decode_utf8, encode_utf8_decode_utf8, valid_utf8};
use crate::text::utf8_text;

verus! {

/// The size of a block.
pub const BLOCK_SIZE: usize = 512;

/// Where the text of a header field ends: at its first zero byte, or, in
/// a field that a space ends too, at its first space; at the end of the
/// field where it has neither.
pub open spec fn field_end(field: Seq<u8>, space_ends: bool) -> int
    decreases field.len(),
{
    if field.len() == 0 || field[0] == 0 || (space_ends && field[0] == 32) {
        0
    } else {
        1 + field_end(field.drop_first(), space_ends)
    }
}

/// Whether every byte of `digits` is one of the digits `0` to `7`.
pub open spec fn all_octal(digits: Seq<u8>) -> bool {
    forall|i: int| 0 <= i < digits.len() ==> 48 <= #[trigger] digits[i] <= 55
}

/// The number that the octal digits `digits` write.
pub open spec fn octal_number(digits: Seq<u8>) -> nat
    decreases digits.len(),
{
    if digits.len() == 0 {
        0
    } else {
        (octal_number(digits.drop_last()) * 8 + (digits.last() - 48)) as nat
    }
}

/// The size that the text `text` of a size field gives: the number that
/// its octal digits write, behind a plus sign or none. Text without a
/// digit, with anything but digits, or with a number too large for the
/// machine, gives 0.
pub open spec fn octal_size(text: Seq<u8>) -> nat {
    let digits = if text.len() > 0 && text[0] == 43 {
        text.skip(1)
    } else {
        text
    };
    if digits.len() == 0 || !all_octal(digits) || octal_number(digits) > usize::MAX {
        0
    } else {
        octal_number(digits)
    }
}

/// `size`, filled up to whole blocks.
pub open spec fn padded(size: nat) -> nat {
    if size % 512 == 0 {
        size
    } else {
        (size + 512 - size % 512) as nat
    }
}

/// The name bytes of a header: the text of its first 100 bytes.
pub open spec fn entry_name(header: Seq<u8>) -> Seq<u8> {
    header.take(field_end(header.take(100), false))
}

/// The size that a header gives: what the text of its bytes 124 to 135
/// says.
pub open spec fn entry_size(header: Seq<u8>) -> nat {
    let field = header.subrange(124, 136);
    octal_size(field.take(field_end(field, true)))
}

/// Whether a header describes a regular file: its type flag, byte 156,
/// is the digit `0` or a zero byte.
pub open spec fn is_regular(header: Seq<u8>) -> bool {
    header[156] == 48 || header[156] == 0
}

/// The files of a mount, and how many regular entries were met. An
/// entry whose name is taken is counted though it adds no file.
pub struct Mounted {
    pub files: Seq<FileModel>,
    pub count: nat,
}

/// What mounting comes to, where `files` are there, `count` regular
/// entries were met, and the next header stands at `offset`.
///
/// Mounting ends where no whole block is left, at a header that begins
/// with a zero byte, and at a regular file whose contents run past the end
/// of the archive. A header whose name is not text is passed over by one
/// block. Every other entry is passed over with its contents; a regular
/// file is counted on the way, and registered: it becomes a file unless
/// its name is taken.
pub open spec fn mounted_from(files: Seq<FileModel>, count: nat, archive: Seq<u8>, offset: int) -> Mounted
    decreases
            if offset < archive.len() {
                archive.len() - offset
            } else {
                0
            },
{
    if offset < 0 || offset + 512 > archive.len() {
        Mounted { files, count }
    } else {
        let header = archive.subrange(offset, offset + 512);
        let body = offset + 512;
        if header[0] == 0 {
            Mounted { files, count }
        } else if !valid_utf8(entry_name(header)) {
            mounted_from(files, count, archive, body)
        } else {
            let size = entry_size(header);
            if is_regular(header) {
                if body + size > archive.len() {
                    Mounted { files, count }
                } else {
                    mounted_from(
                        after_register(
                            files,
                            decode_utf8(entry_name(header)),
                            archive.subrange(body, body + size),
                        ),
                        count + 1,
                        archive,
                        body + padded(size),
                    )
                }
            } else {
                mounted_from(files, count, archive, body + padded(size))
            }
        }
    }
}

/// A run of `n` bytes without an end mark, with an end mark or the end of
/// the field behind it, is the text of the field.
proof fn lemma_field_end(field: Seq<u8>, space_ends: bool, n: int)
    requires
        0 <= n <= field.len(),
        forall|k: int| 0 <= k < n ==> field[k] != 0 && !(space_ends && field[k] == 32),
        n == field.len() || field[n] == 0 || (space_ends && field[n] == 32),
    ensures
        field_end(field, space_ends) == n,
    decreases n,
{
    if n > 0 {
        lemma_field_end(field.drop_first(), space_ends, n - 1);
    }
}

fn find_field_end(field: &[u8], space_ends: bool) -> (end: usize)
    ensures
        end == field_end(field@, space_ends),
        end <= field@.len(),
{
    let mut end: usize = 0;
    while end < field.len() && field[end] != 0 && !(space_ends && field[end] == 32)
        invariant
            0 <= end <= field.len(),
            forall|k: int| 0 <= k < end ==> field[k] != 0 && !(space_ends && field[k] == 32),
        decreases field.len() - end,
    {
        end += 1;
    }
    proof {
        lemma_field_end(field@, space_ends, end as int);
    }
    end
}

/// More digits never write a smaller number.
proof fn lemma_octal_number_grows(digits: Seq<u8>, n: int)
    requires
        all_octal(digits),
        0 <= n <= digits.len(),
    ensures
        octal_number(digits.take(n)) <= octal_number(digits),
    decreases digits.len() - n,
{
    if n < digits.len() {
        lemma_octal_number_grows(digits, n + 1);
        assert(digits.take(n + 1).drop_last() =~= digits.take(n));
        assert(digits.take(n + 1).last() == digits[n]);
    } else {
        assert(digits.take(n) =~= digits);
    }
}

fn parse_octal(text: &[u8]) -> (size: usize)
    ensures
        size == octal_size(text@),
{
    let start: usize = if text.len() > 0 && text[0] == 43 {
        1
    } else {
        0
    };
    let ghost digits = text@.skip(start as int);
    assert(start == 0 ==> digits =~= text@);
    if start == text.len() {
        return 0;
    }
    let mut value: usize = 0;
    let mut i: usize = start;
    assert(digits.take(0) =~= Seq::<u8>::empty());
    while i < text.len()
        invariant
            start <= i <= text.len(),
            start < text.len(),
            start == if text@.len() > 0 && text@[0] == 43 {
                1int
            } else {
                0int
            },
            digits == text@.skip(start as int),
            start == 0 ==> digits == text@,
            all_octal(digits.take(i - start)),
            value == octal_number(digits.take(i - start)),
        decreases text.len() - i,
    {
        let byte: u8 = text[i];
        if byte < 48 || byte > 55 {
            assert(digits[i - start] == byte);
            return 0;
        }
        proof {
            assert(digits.take(i + 1 - start).drop_last() =~= digits.take(i - start));
            assert(digits.take(i + 1 - start).last() == byte);
            assert(all_octal(digits.take(i + 1 - start))) by {
                assert forall|k: int| 0 <= k < i + 1 - start implies 48 <= #[trigger] digits.take(
                    i + 1 - start,
                )[k] <= 55 by {
                    if k < i - start {
                        assert(digits.take(i - start)[k] == digits[k]);
                    }
                }
            }
        }
        let next = match value.checked_mul(8) {
            Some(scaled) => scaled.checked_add((byte - 48) as usize),
            None => None,
        };
        match next {
            Some(total) => {
                value = total;
            },
            None => {
                proof {
                    if all_octal(digits) {
                        lemma_octal_number_grows(digits, i + 1 - start);
                    }
                }
                return 0;
            },
        }
        i += 1;
    }
    proof {
        assert(digits.take(i - start) =~= digits);
    }
    value
}

/// Mounts the regular files of the archive into the VFS, as read-only
/// files of the system, and returns how many regular entries it met. A
/// regular entry whose name is taken is counted, and the file that has the
/// name stays. Fails on an archive without bytes, and on no other.
pub fn init(registry: &mut VfsRegistry, archive: &[u8]) -> (result: Result<usize, &'static str>)
    requires
        names_unique(old(registry)@),
    ensures
        match result {
            Ok(count) => archive@.len() > 0 && final(registry)@ == mounted_from(
                old(registry)@,
                0,
                archive@,
                0,
            ).files && count == mounted_from(old(registry)@, 0, archive@, 0).count,
            Err(reason) => archive@.len() == 0 && reason@ == "Archive is empty"@
                && final(registry)@ == old(registry)@,
        },
        names_unique(final(registry)@),
{
    let total: usize = archive.len();
    if total == 0 {
        return Err("Archive is empty");
    }
    let mut count: usize = 0;
    let mut offset: usize = 0;
    while total - offset >= BLOCK_SIZE
        invariant_except_break
            count * 512 <= offset,
            mounted_from(registry@, count as nat, archive@, offset as int) == mounted_from(
                old(registry)@,
                0,
                archive@,
                0,
            ),
        invariant
            total == archive.len(),
            offset <= total,
            names_unique(registry@),
        ensures
            mounted_from(old(registry)@, 0, archive@, 0) == (Mounted {
                files: registry@,
                count: count as nat,
            }),
        decreases total - offset,
    {
        let header = slice_subrange(archive, offset, offset + BLOCK_SIZE);
        let body: usize = offset + BLOCK_SIZE;
        if header[0] == 0 {
            break ;
        }
        let name_end = find_field_end(slice_subrange(header, 0, 100), false);
        let name_bytes = slice_subrange(header, 0, name_end);
        assert(name_bytes@ =~= entry_name(header@));
        let name = match utf8_text(name_bytes) {
            Some(text) => text,
            None => {
                offset = body;
                continue ;
            },
        };
        proof {
            encode_utf8_decode_utf8(name@);
        }
        let field = slice_subrange(header, 124, 136);
        let size_end = find_field_end(field, true);
        let size = parse_octal(slice_subrange(field, 0, size_end));
        assert(size == entry_size(header@));
        let regular = header[156] == 48 || header[156] == 0;
        if size > total - body {
            if regular {
                break ;
            }
            assert(mounted_from(registry@, count as nat, archive@, body + padded(size as nat))
                == (Mounted { files: registry@, count: count as nat }));
            break ;
        }
        if regular {
            register_file(registry, name, slice_subrange(archive, body, body + size));
            count = count + 1;
        }
        let odd: usize = size % BLOCK_SIZE;
        if odd == 0 {
            offset = body + size;
        } else {
            let fill: usize = BLOCK_SIZE - odd;
            if fill > total - body - size {
                assert(mounted_from(registry@, count as nat, archive@, body + padded(size as nat))
                    == (Mounted { files: registry@, count: count as nat }));
                break ;
            }
            offset = body + size + fill;
        }
    }
    Ok(count)
}

} // verus!
