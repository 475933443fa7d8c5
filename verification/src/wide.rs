//! Text as the system takes it: UTF-16 with a terminating zero.

use vstd::prelude::*;

verus! {

/// The UTF-16 code units of one character.
pub open spec fn utf16_units(c: char) -> Seq<u16> {
    let point = c as int;
    if point < 0x10000 {
        seq![point as u16]
    } else {
        seq![
            (0xD800 + (point - 0x10000) / 0x400) as u16,
            (0xDC00 + (point - 0x10000) % 0x400) as u16,
        ]
    }
}

/// The UTF-16 code units of a text, without a terminator.
pub open spec fn utf16(text: Seq<char>) -> Seq<u16>
    decreases text.len(),
{
    if text.len() == 0 {
        Seq::empty()
    } else {
        utf16(text.drop_last()) + utf16_units(text.last())
    }
}

/// The UTF-16 code units of a text and a terminating zero.
pub open spec fn wide(text: Seq<char>) -> Seq<u16> {
    utf16(text).push(0)
}

/// Appends the UTF-16 code units of one character.
fn push_units(units: &mut Vec<u16>, c: char)
    ensures
        final(units)@ == old(units)@ + utf16_units(c),
{
    let point: u32 = c as u32;
    if point < 0x10000 {
        units.push(point as u16);
    } else {
        let offset: u32 = point - 0x10000;
        units.push((0xD800 + offset / 0x400) as u16);
        units.push((0xDC00 + offset % 0x400) as u16);
    }
    assert(units@ =~= old(units)@ + utf16_units(c));
}

/// Encodes a text as UTF-16, without a terminator.
pub fn encode_wide(text: &str) -> (units: Vec<u16>)
    ensures
        units@ == utf16(text@),
{
    let mut units: Vec<u16> = Vec::new();
    for c in it: text.chars()
        invariant
            it.seq() == text@,
            units@ == utf16(text@.take(it.index() as int)),
    {
        let ghost done: Seq<char> = text@.take(it.index() as int);
        let ghost more: Seq<char> = text@.take(it.index() + 1);
        assert(more.drop_last() =~= done);
        assert(more.last() == c);
        push_units(&mut units, c);
        assert(units@ =~= utf16(done) + utf16_units(c));
    }
    assert(text@.take(text@.len() as int) =~= text@);
    units
}

/// Encodes a text as UTF-16 with a terminating zero.
pub fn to_wide(text: &str) -> (units: Vec<u16>)
    ensures
        units@ == wide(text@),
{
    let mut units: Vec<u16> = encode_wide(text);
    units.push(0);
    units
}

proof fn lemma_units_nonzero(c: char)
    requires
        c != '\0',
    ensures
        forall|i: int| 0 <= i < utf16_units(c).len() ==> utf16_units(c)[i] != 0,
{
}

/// A zero stands in the encoding of a text only where the text holds a zero
/// character: the terminator of a text without one is the first zero.
pub proof fn law_terminator_is_first_zero(text: Seq<char>)
    requires
        !text.contains('\0'),
    ensures
        wide(text).len() == utf16(text).len() + 1,
        wide(text).last() == 0,
        forall|i: int| 0 <= i < utf16(text).len() ==> wide(text)[i] != 0,
    decreases text.len(),
{
    if text.len() > 0 {
        let head = text.drop_last();
        assert(!head.contains('\0')) by {
            assert(forall|i: int| 0 <= i < head.len() ==> head[i] == text[i]);
        }
        law_terminator_is_first_zero(head);
        assert(text.contains(text.last()));
        assert forall|i: int| 0 <= i < utf16(text).len() implies wide(text)[i] != 0 by {
            if i < utf16(head).len() {
                assert(wide(head)[i] != 0);
                assert(wide(text)[i] == wide(head)[i]);
            } else {
                lemma_units_nonzero(text.last());
                assert(wide(text)[i] == utf16_units(text.last())[i - utf16(head).len()]);
            }
        }
    }
}

/// The characters, by their code points, that UTF-16 code units stand for. Two
/// units stand for one character where they are a surrogate pair.
pub open spec fn points(units: Seq<u16>) -> Seq<int>
    decreases units.len(),
{
    if units.len() == 0 {
        Seq::empty()
    } else if units.len() > 1 && 0xD800 <= units[0] < 0xDC00 && 0xDC00 <= units[1] < 0xE000 {
        seq![0x10000 + (units[0] - 0xD800) * 0x400 + (units[1] - 0xDC00)] + points(units.skip(2))
    } else {
        seq![units[0] as int] + points(units.skip(1))
    }
}

/// The encoding of two texts in a row is that of the one and then that of the
/// other.
pub proof fn law_texts_join(first: Seq<char>, second: Seq<char>)
    ensures
        utf16(first + second) == utf16(first) + utf16(second),
    decreases second.len(),
{
    if second.len() == 0 {
        assert(first + second =~= first);
        assert(utf16(first) + utf16(second) =~= utf16(first));
    } else {
        assert((first + second).drop_last() =~= first + second.drop_last());
        assert((first + second).last() == second.last());
        law_texts_join(first, second.drop_last());
        assert(utf16(first) + utf16(second.drop_last()) + utf16_units(second.last()) =~= utf16(
            first,
        ) + utf16(second));
    }
}

/// The code units of one character stand for that character, whatever follows.
proof fn lemma_units_read_back(c: char, rest: Seq<u16>)
    ensures
        points(utf16_units(c) + rest) == seq![c as int] + points(rest),
        1 <= utf16_units(c).len() <= 2,
{
    let units = utf16_units(c);
    let all = units + rest;
    let point = c as int;
    if point < 0x10000 {
        assert(units.len() == 1);
        assert(all[0] == point);
        assert(all.skip(1) =~= rest);
    } else {
        assert(units.len() == 2);
        let offset = point - 0x10000;
        assert(0 <= offset < 0x100000);
        assert(all[0] == 0xD800 + offset / 0x400);
        assert(all[1] == 0xDC00 + offset % 0x400);
        assert(all.skip(2) =~= rest);
        assert(0x10000 + (all[0] - 0xD800) * 0x400 + (all[1] - 0xDC00) == point);
    }
}

/// The encoding of a text stands for that text, character by character, and a
/// single zero comes after it.
pub proof fn law_text_reads_back(text: Seq<char>)
    ensures
        points(utf16(text)) == Seq::new(text.len(), |i: int| text[i] as int),
        wide(text).len() == utf16(text).len() + 1,
        wide(text).last() == 0,
        wide(text).drop_last() == utf16(text),
    decreases text.len(),
{
    assert(wide(text).drop_last() =~= utf16(text));
    if text.len() == 0 {
        assert(points(utf16(text)) =~= Seq::new(text.len(), |i: int| text[i] as int));
    } else {
        let rest = text.drop_first();
        let head = seq![text[0]];
        assert(text =~= head + rest);
        law_texts_join(head, rest);
        assert(head.drop_last() =~= Seq::<char>::empty());
        assert(utf16(head.drop_last()) =~= Seq::<u16>::empty());
        assert(utf16(head) =~= utf16_units(text[0]));
        lemma_units_read_back(text[0], utf16(rest));
        law_text_reads_back(rest);
        assert(points(utf16(text)) =~= Seq::new(text.len(), |i: int| text[i] as int));
    }
}

} // verus!
