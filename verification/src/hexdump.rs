//! A compact dump of bytes for diagnostics: per chunk, the bytes in
//! hexadecimal, padded to a fixed width, then the same bytes as text.
use vstd::prelude::*;

verus! {

/// The lower-case hexadecimal digit of a value below sixteen.
pub open spec fn hex_digit(nibble: u8) -> char {
    if nibble < 10 {
        (48 + nibble) as char
    } else {
        (87 + nibble) as char
    }
}

/// The two hexadecimal digits of a byte.
pub open spec fn hex_pair(byte: u8) -> Seq<char> {
    seq![hex_digit(byte / 16), hex_digit(byte % 16)]
}

/// The character shown for a byte: the byte itself where it is printable
/// ASCII, a dot where it is not.
pub open spec fn glyph(byte: u8) -> char {
    if 32 <= byte <= 126 {
        byte as char
    } else {
        '.'
    }
}

/// The bytes of a chunk in hexadecimal, a space between neighbours.
pub open spec fn hex_part(chunk: Seq<u8>) -> Seq<char>
    decreases chunk.len(),
{
    if chunk.len() == 0 {
        Seq::empty()
    } else if chunk.len() == 1 {
        hex_pair(chunk[0])
    } else {
        hex_part(chunk.drop_last()) + seq![' '] + hex_pair(chunk.last())
    }
}

/// The bytes of a chunk as text.
pub open spec fn char_part(chunk: Seq<u8>) -> Seq<char> {
    Seq::new(chunk.len(), |i: int| glyph(chunk[i]))
}

/// `count` spaces.
pub open spec fn spaces(count: nat) -> Seq<char> {
    Seq::new(count, |i: int| ' ')
}

/// The dump of one chunk: the hexadecimal part, filled with spaces to three
/// columns per byte of a full chunk, two more spaces, and the text part.
pub open spec fn dump_line(chunk: Seq<u8>, chunk_size: nat) -> Seq<char> {
    hex_part(chunk) + spaces((3 * chunk_size - hex_part(chunk).len()) as nat) + spaces(2)
        + char_part(chunk)
}

/// The dump of the bytes of `data` from `start` on: the dumps of the chunks
/// of `chunk_size` bytes, the last of them possibly shorter, one after the
/// other with nothing between them.
pub open spec fn dump_from(data: Seq<u8>, chunk_size: nat, start: nat) -> Seq<char>
    decreases data.len() - start,
{
    if start >= data.len() || chunk_size == 0 {
        Seq::empty()
    } else {
        let end: int = if start + chunk_size <= data.len() {
            (start + chunk_size) as int
        } else {
            data.len() as int
        };
        dump_line(data.subrange(start as int, end), chunk_size) + dump_from(
            data,
            chunk_size,
            end as nat,
        )
    }
}

/// The dump of `data` in chunks of `chunk_size` bytes.
pub open spec fn dump(data: Seq<u8>, chunk_size: nat) -> Seq<char> {
    dump_from(data, chunk_size, 0)
}

/// The hexadecimal part of a chunk of `n` bytes takes `3 * n - 1` characters.
pub proof fn lemma_hex_part_len(chunk: Seq<u8>)
    ensures
        hex_part(chunk).len() == if chunk.len() == 0 {
            0
        } else {
            3 * chunk.len() - 1
        },
    decreases chunk.len(),
{
    if chunk.len() > 1 {
        lemma_hex_part_len(chunk.drop_last());
    }
}

/// `String::push` of std, which appends one character to the string and
/// leaves what was there in place.
pub assume_specification[ String::push ](s: &mut String, c: char)
    ensures
        final(s)@ == old(s)@.push(c),
;

fn hex_char(nibble: u8) -> (c: char)
    requires
        nibble < 16,
    ensures
        c == hex_digit(nibble),
{
    if nibble < 10 {
        (48 + nibble) as char
    } else {
        (87 + nibble) as char
    }
}

fn push_spaces(out: &mut String, count: usize)
    ensures
        final(out)@ == old(out)@ + spaces(count as nat),
{
    let mut i: usize = 0;
    while i < count
        invariant
            i <= count,
            out@ == old(out)@ + spaces(i as nat),
        decreases count - i,
    {
        out.push(' ');
        i += 1;
        assert(out@ =~= old(out)@ + spaces(i as nat));
    }
    assert(out@ =~= old(out)@ + spaces(count as nat));
}

fn push_hex_part(out: &mut String, data: &Vec<u8>, start: usize, end: usize)
    requires
        start <= end <= data.len(),
    ensures
        final(out)@ == old(out)@ + hex_part(data@.subrange(start as int, end as int)),
{
    let ghost chunk = data@.subrange(start as int, end as int);
    let mut i: usize = start;
    while i < end
        invariant
            start <= i <= end <= data.len(),
            chunk == data@.subrange(start as int, end as int),
            out@ == old(out)@ + hex_part(chunk.take(i - start)),
        decreases end - i,
    {
        if i > start {
            out.push(' ');
        }
        let byte = data[i];
        out.push(hex_char(byte / 16));
        out.push(hex_char(byte % 16));
        i += 1;
        proof {
            let now = chunk.take(i - start);
            assert(now.drop_last() =~= chunk.take(i - 1 - start));
            assert(now.last() == byte);
            assert(out@ =~= old(out)@ + hex_part(now));
        }
    }
    assert(chunk.take(end - start) =~= chunk);
}

fn push_char_part(out: &mut String, data: &Vec<u8>, start: usize, end: usize)
    requires
        start <= end <= data.len(),
    ensures
        final(out)@ == old(out)@ + char_part(data@.subrange(start as int, end as int)),
{
    let ghost chunk = data@.subrange(start as int, end as int);
    let mut i: usize = start;
    while i < end
        invariant
            start <= i <= end <= data.len(),
            chunk == data@.subrange(start as int, end as int),
            out@ == old(out)@ + char_part(chunk.take(i - start)),
        decreases end - i,
    {
        let byte = data[i];
        let c: char = if 32 <= byte && byte <= 126 {
            byte as char
        } else {
            '.'
        };
        out.push(c);
        i += 1;
        assert(out@ =~= old(out)@ + char_part(chunk.take(i - start)));
    }
    assert(chunk.take(end - start) =~= chunk);
}

/// Dumps `data` in chunks of `chunk_size` bytes. Each chunk gives its bytes as
/// two hexadecimal digits each, separated by spaces and filled up to
/// `3 * chunk_size` columns, then two spaces, then the bytes as characters
/// with a dot for each that is not printable ASCII. Nothing separates the
/// chunks.
pub fn hexdump(data: Vec<u8>, chunk_size: usize) -> (lines: String)
    requires
        chunk_size > 0,
        3 * chunk_size <= usize::MAX,
    ensures
        lines@ == dump(data@, chunk_size as nat),
{
    let mut lines = String::new();
    let width: usize = 3 * chunk_size;
    let mut start: usize = 0;
    while start < data.len()
        invariant
            chunk_size > 0,
            width == 3 * chunk_size,
            start <= data.len(),
            lines@ + dump_from(data@, chunk_size as nat, start as nat) == dump(
                data@,
                chunk_size as nat,
            ),
        decreases data.len() - start,
    {
        let end: usize = if chunk_size <= data.len() - start {
            start + chunk_size
        } else {
            data.len()
        };
        let ghost before = lines@;
        let ghost chunk = data@.subrange(start as int, end as int);
        push_hex_part(&mut lines, &data, start, end);
        proof {
            lemma_hex_part_len(chunk);
        }
        push_spaces(&mut lines, width - (3 * (end - start) - 1));
        push_spaces(&mut lines, 2);
        push_char_part(&mut lines, &data, start, end);
        proof {
            assert(lines@ =~= before + dump_line(chunk, chunk_size as nat));
            assert((before + dump_line(chunk, chunk_size as nat)) + dump_from(
                data@,
                chunk_size as nat,
                end as nat,
            ) =~= before + dump_from(data@, chunk_size as nat, start as nat));
        }
        start = end;
    }
    assert(lines@ =~= dump(data@, chunk_size as nat));
    lines
}

} // verus!
