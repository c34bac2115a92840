//! What is done with blocks, their addresses and their numbers, in terms of
//! plain numbers and of places in a text.
//!
//! Every law here is about a call: `call_ensures` relates the arguments of an
//! operation to what it returned, and the law says what the two have to do with
//! one another.
use crate::data_structures::{dump_line, dump_lines, Block, BlockCount, BlockIdx, BlockIter};
use crate::text::hex_char;
use vstd::prelude::*;
use vstd::std_specs::ops::{AddSpec, SubSpec};

verus! {

/// A new block has 512 bytes, all of them zero.
pub proof fn law_new_block(block: Block)
    requires
        call_ensures(Block::new, (), block),
    ensures
        block.contents@.len() == 512,
        forall|i: int| 0 <= i < 512 ==> #[trigger] block.contents@[i] == 0,
{
}

/// The block that stands for none has 512 bytes, all of them zero.
pub proof fn law_default_block(block: Block)
    requires
        call_ensures(<Block as Default>::default, (), block),
    ensures
        block.contents@.len() == 512,
        forall|i: int| 0 <= i < 512 ==> #[trigger] block.contents@[i] == 0,
{
}

/// A copy of a block has its bytes.
pub proof fn law_cloned_block(block: &Block, copy: Block)
    requires
        call_ensures(<Block as Clone>::clone, (block,), copy),
    ensures
        copy.contents@ == block.contents@,
{
}

/// Addresses and numbers of blocks add up and are taken from one another as
/// numbers are.
pub proof fn law_sums(idx: BlockIdx, n: BlockCount, count: BlockCount)
    ensures
        idx.0 + count.0 <= u32::MAX ==> {
            &&& AddSpec::add_req(idx, count)
            &&& AddSpec::add_spec(idx, count).0 == idx.0 + count.0
        },
        n.0 + count.0 <= u32::MAX ==> {
            &&& AddSpec::add_req(n, count)
            &&& AddSpec::add_spec(n, count).0 == n.0 + count.0
        },
        count.0 <= idx.0 ==> {
            &&& SubSpec::sub_req(idx, count)
            &&& SubSpec::sub_spec(idx, count).0 == idx.0 - count.0
        },
        count.0 <= n.0 ==> {
            &&& SubSpec::sub_req(n, count)
            &&& SubSpec::sub_spec(n, count).0 == n.0 - count.0
        },
{
}

/// An address moves forward by a number of blocks.
pub proof fn law_idx_forward(idx: &mut BlockIdx, count: BlockCount)
    requires
        call_ensures(BlockIdx::add_assign, (idx, count), ()),
    ensures
        final(idx).0 - old(idx).0 == count.0,
{
}

/// An address moves back by a number of blocks.
pub proof fn law_idx_back(idx: &mut BlockIdx, count: BlockCount)
    requires
        call_ensures(BlockIdx::sub_assign, (idx, count), ()),
    ensures
        old(idx).0 - final(idx).0 == count.0,
{
}

/// A number of blocks grows by another.
pub proof fn law_count_up(n: &mut BlockCount, count: BlockCount)
    requires
        call_ensures(BlockCount::add_assign, (n, count), ()),
    ensures
        final(n).0 - old(n).0 == count.0,
{
}

/// A number of blocks shrinks by another.
pub proof fn law_count_down(n: &mut BlockCount, count: BlockCount)
    requires
        call_ensures(BlockCount::sub_assign, (n, count), ()),
    ensures
        old(n).0 - final(n).0 == count.0,
{
}

/// Two addresses lie as many times 512 bytes apart as there are blocks between
/// them, and the first block begins at the first byte.
pub proof fn law_byte_offsets(idx: BlockIdx, other: BlockIdx, bytes: u64, other_bytes: u64)
    requires
        call_ensures(BlockIdx::into_bytes, (idx,), bytes),
        call_ensures(BlockIdx::into_bytes, (other,), other_bytes),
    ensures
        other_bytes - bytes == 512 * (other.0 - idx.0),
        idx.0 == 0 ==> bytes == 0,
{
}

/// The block that holds a byte lies as many blocks further as there are whole
/// blocks before the byte.
pub proof fn law_offset_bytes(n: BlockCount, offset: u32, count: BlockCount)
    requires
        call_ensures(BlockCount::offset_bytes, (n, offset), count),
    ensures
        512 * (count.0 - n.0) <= offset < 512 * (count.0 - n.0 + 1),
{
}

/// A range holds as many addresses as were asked for, one after the other from
/// its start on.
pub proof fn law_range(idx: BlockIdx, num: BlockCount, iter: BlockIter)
    requires
        call_ensures(BlockIdx::range, (idx, num), iter),
        idx.0 + num.0 <= u32::MAX,
    ensures
        iter@.len() == num.0,
        forall|i: int| 0 <= i < num.0 ==> (#[trigger] iter@[i]).0 == idx.0 + i,
{
}

/// A range between two addresses holds both of them and all between.
pub proof fn law_range_between(start: BlockIdx, inclusive_end: BlockIdx, iter: BlockIter)
    requires
        call_ensures(BlockIter::new, (start, inclusive_end), iter),
    ensures
        start.0 > inclusive_end.0 ==> iter@.len() == 0,
        start.0 <= inclusive_end.0 ==> {
            &&& iter@.len() == inclusive_end.0 - start.0 + 1
            &&& iter@[0] == start
            &&& iter@.last() == inclusive_end
        },
        forall|i: int| 0 <= i < iter@.len() ==> (#[trigger] iter@[i]).0 == start.0 + i,
{
}

/// A range hands out its addresses from the first on, each once.
pub proof fn law_range_next(iter: &mut BlockIter, item: Option<BlockIdx>)
    requires
        call_ensures(BlockIter::next, (iter,), item),
    ensures
        item is Some <==> old(iter)@.len() > 0,
        item is None ==> final(iter)@ == old(iter)@,
        item matches Some(idx) ==> old(iter)@ == seq![idx] + final(iter)@,
{
    if item is Some {
        assert(iter@ =~= seq![item->0] + iter@.drop_first());
    }
}

/// The digit of a value below 16, in hexadecimal and lower case.
pub open spec fn digit(value: int) -> char {
    if value < 10 {
        (0x30 + value) as char
    } else {
        (0x57 + value) as char
    }
}

/// A value below 16 is written as one digit.
pub proof fn law_hex_digit(value: u8, c: char)
    requires
        call_ensures(hex_char, (value,), c),
        value < 16,
    ensures
        c == digit(value as int),
{
}

/// The lines of a dump have 98 characters each, and each shows its 32 bytes.
proof fn lemma_dump_lines(bytes: Seq<u8>, n: int, line: int)
    requires
        bytes.len() == 512,
        0 <= n <= 16,
    ensures
        dump_lines(bytes, n).len() == 98 * n,
        0 <= line < n ==> forall|i: int|
            0 <= i < 98 ==> dump_lines(bytes, n)[98 * line + i] == #[trigger] dump_line(
                bytes.subrange(32 * line, 32 * line + 32),
            )[i],
    decreases n,
{
    if n > 0 {
        lemma_dump_lines(bytes, n - 1, line);
        let last = dump_line(bytes.subrange(32 * (n - 1), 32 * n));
        assert(last.len() == 98);
        if line == n - 1 {
            assert(32 * line + 32 == 32 * n);
        }
    }
}

/// A dump has a heading and 16 lines. A line shows 32 bytes, first as two
/// hexadecimal digits each and then, after a space, as one character each: a
/// period where the byte is no character of ASCII that can be shown.
pub proof fn law_block_shown(block: &Block, text: String, line: int, column: int)
    requires
        call_ensures(Block::debug_string, (block,), text),
        0 <= line < 16,
        0 <= column < 32,
    ensures
        text@.len() == 7 + 16 * 98,
        text@.take(7) == seq!['B', 'l', 'o', 'c', 'k', ':', '\n'],
        ({
            let byte = block.contents@[32 * line + column];
            let start = 7 + 98 * line;
            &&& text@[start + 2 * column] == digit(byte as int / 16)
            &&& text@[start + 2 * column + 1] == digit(byte as int % 16)
            &&& text@[start + 64] == ' '
            &&& text@[start + 65 + column] == if 0x20 <= byte <= 0x7F {
                byte as char
            } else {
                '.'
            }
            &&& text@[start + 97] == '\n'
        }),
{
    let bytes = block.contents@;
    let shown = dump_lines(bytes, 16);
    let part = bytes.subrange(32 * line, 32 * line + 32);
    let one = dump_line(part);
    lemma_dump_lines(bytes, 16, line);
    assert(part[column] == bytes[32 * line + column]);
    assert(text@.take(7) =~= seq!['B', 'l', 'o', 'c', 'k', ':', '\n']);
    assert(forall|i: int| 0 <= i < shown.len() ==> text@[7 + i] == #[trigger] shown[i]);
    assert(one[2 * column] == digit(part[column] as int / 16));
    assert(one[2 * column + 1] == digit(part[column] as int % 16));
    assert(one[64] == ' ');
    assert(one[65 + column] == if 0x20 <= part[column] <= 0x7F {
        part[column] as char
    } else {
        '.'
    });
    assert(one[97] == '\n');
    assert(text@[7 + (98 * line + 2 * column)] == shown[98 * line + 2 * column]);
    assert(text@[7 + (98 * line + (2 * column + 1))] == shown[98 * line + (2 * column + 1)]);
    assert(text@[7 + (98 * line + 64)] == shown[98 * line + 64]);
    assert(text@[7 + (98 * line + (65 + column))] == shown[98 * line + (65 + column)]);
    assert(text@[7 + (98 * line + 97)] == shown[98 * line + 97]);
}

/// A block can be read as the array of its bytes.
pub proof fn law_block_as_array(block: &Block, contents: &[u8; 512])
    requires
        call_ensures(<Block as core::ops::Deref>::deref, (block,), contents),
    ensures
        contents@ == block.contents@,
{
}

} // verus!
