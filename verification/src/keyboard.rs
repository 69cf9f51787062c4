use vstd::prelude::*;

verus! {

/// `c` in ASCII upper case: 'a' to 'z' become 'A' to 'Z', every other
/// character stays as it is.
pub open spec fn ascii_uppercase(c: char) -> char {
    if 'a' <= c && c <= 'z' {
        ((c as u32) - 32) as char
    } else {
        c
    }
}

/// `c` in ASCII upper case.
fn to_ascii_uppercase(c: char) -> (r: char)
    ensures
        r == ascii_uppercase(c),
{
    if 'a' <= c && c <= 'z' {
        ((c as u8) - 32) as char
    } else {
        c
    }
}

/// The keyboard keys, laid out as the 4 x 4 block from '1' to 'V' on a
/// QWERTY keyboard.
pub open spec fn source_keys() -> Seq<char> {
    seq!['1', '2', '3', '4', 'Q', 'W', 'E', 'R', 'A', 'S', 'D', 'F', 'Z', 'X', 'C', 'V']
}

/// The CHIP-8 key that each keyboard key of `source_keys` stands for: the
/// hexadecimal keypad 1 2 3 C / 4 5 6 D / 7 8 9 E / A 0 B F.
pub open spec fn target_keys() -> Seq<u8> {
    seq![0x1u8, 0x2, 0x3, 0xC, 0x4, 0x5, 0x6, 0xD, 0x7, 0x8, 0x9, 0xE, 0xA, 0x0, 0xB, 0xF]
}

/// The CHIP-8 key that the keyboard character `key` (in either case) stands
/// for, if any.
pub open spec fn key_for_char(key: char) -> Option<u8> {
    let upper = ascii_uppercase(key);
    if exists|i: int| 0 <= i < 16 && source_keys()[i] == upper {
        let i = choose|i: int| 0 <= i < 16 && source_keys()[i] == upper;
        Some(target_keys()[i])
    } else {
        None
    }
}

fn source_key_table() -> (r: [char; 16])
    ensures
        r@ == source_keys(),
{
    let r = ['1', '2', '3', '4', 'Q', 'W', 'E', 'R', 'A', 'S', 'D', 'F', 'Z', 'X', 'C', 'V'];
    assert(r@ =~= source_keys());
    r
}

fn target_key_table() -> (r: [u8; 16])
    ensures
        r@ == target_keys(),
{
    let r = [
        0x1, 0x2, 0x3, 0xC, // 1, 2, 3, C,
        0x4, 0x5, 0x6, 0xD, // 4, 5, 6, D,
        0x7, 0x8, 0x9, 0xE, // 7, 8, 9, E,
        0xA, 0x0, 0xB, 0xF, // A, 0, B, F,
    ];
    assert(r@ =~= target_keys());
    r
}

proof fn lemma_source_keys_distinct()
    ensures
        forall|i: int, j: int|
            0 <= i < 16 && 0 <= j < 16 && #[trigger] source_keys()[i] == #[trigger] source_keys()[j]
                ==> i == j,
{
    assert(source_keys().len() == 16);
    assert forall|i: int, j: int|
        0 <= i < 16 && 0 <= j < 16 && #[trigger] source_keys()[i] == #[trigger] source_keys()[j]
            implies i == j by {
        let s = source_keys();
        assert(s[0] == '1' && s[1] == '2' && s[2] == '3' && s[3] == '4' && s[4] == 'Q' && s[5]
            == 'W' && s[6] == 'E' && s[7] == 'R' && s[8] == 'A' && s[9] == 'S' && s[10] == 'D'
            && s[11] == 'F' && s[12] == 'Z' && s[13] == 'X' && s[14] == 'C' && s[15] == 'V');
    }
}

/// Maps a keyboard character (in either case) to the CHIP-8 key it stands
/// for, or `None` for a character outside the layout.
pub fn map_key(key: char) -> (r: Option<u8>)
    ensures
        r == key_for_char(key),
{
    let source = source_key_table();
    let target = target_key_table();
    let upper = to_ascii_uppercase(key);
    proof {
        lemma_source_keys_distinct();
    }
    let mut i: usize = 0;
    while i < 16
        invariant
            i <= 16,
            source@ == source_keys(),
            target@ == target_keys(),
            upper == ascii_uppercase(key),
            forall|j: int| 0 <= j < i ==> source_keys()[j] != upper,
        decreases 16 - i,
    {
        if upper == source[i] {
            assert(source_keys()[i as int] == upper);
            return Some(target[i]);
        }
        i += 1;
    }
    None
}

proof fn lemma_key_at(i: int)
    requires
        0 <= i < 16,
    ensures
        ascii_uppercase(source_keys()[i]) == source_keys()[i],
        key_for_char(source_keys()[i]) == Some(target_keys()[i]),
{
    lemma_source_keys_distinct();
    let c = source_keys()[i];
    assert(source_keys()[i] == c);
    let j = choose|j: int| 0 <= j < 16 && source_keys()[j] == ascii_uppercase(c);
    assert(j == i);
}

/// The keyboard's 4 x 4 block 1 2 3 4 / Q W E R / A S D F / Z X C V stands
/// for the hexadecimal keypad 1 2 3 C / 4 5 6 D / 7 8 9 E / A 0 B F.
pub proof fn lemma_keyboard_layout()
    ensures
        key_for_char('1') == Some(0x1u8),
        key_for_char('2') == Some(0x2u8),
        key_for_char('3') == Some(0x3u8),
        key_for_char('4') == Some(0xCu8),
        key_for_char('Q') == Some(0x4u8),
        key_for_char('W') == Some(0x5u8),
        key_for_char('E') == Some(0x6u8),
        key_for_char('R') == Some(0xDu8),
        key_for_char('A') == Some(0x7u8),
        key_for_char('S') == Some(0x8u8),
        key_for_char('D') == Some(0x9u8),
        key_for_char('F') == Some(0xEu8),
        key_for_char('Z') == Some(0xAu8),
        key_for_char('X') == Some(0x0u8),
        key_for_char('C') == Some(0xBu8),
        key_for_char('V') == Some(0xFu8),
{
    lemma_key_at(0);
    assert(source_keys()[0] == '1' && target_keys()[0] == 0x1u8);
    lemma_key_at(1);
    assert(source_keys()[1] == '2' && target_keys()[1] == 0x2u8);
    lemma_key_at(2);
    assert(source_keys()[2] == '3' && target_keys()[2] == 0x3u8);
    lemma_key_at(3);
    assert(source_keys()[3] == '4' && target_keys()[3] == 0xCu8);
    lemma_key_at(4);
    assert(source_keys()[4] == 'Q' && target_keys()[4] == 0x4u8);
    lemma_key_at(5);
    assert(source_keys()[5] == 'W' && target_keys()[5] == 0x5u8);
    lemma_key_at(6);
    assert(source_keys()[6] == 'E' && target_keys()[6] == 0x6u8);
    lemma_key_at(7);
    assert(source_keys()[7] == 'R' && target_keys()[7] == 0xDu8);
    lemma_key_at(8);
    assert(source_keys()[8] == 'A' && target_keys()[8] == 0x7u8);
    lemma_key_at(9);
    assert(source_keys()[9] == 'S' && target_keys()[9] == 0x8u8);
    lemma_key_at(10);
    assert(source_keys()[10] == 'D' && target_keys()[10] == 0x9u8);
    lemma_key_at(11);
    assert(source_keys()[11] == 'F' && target_keys()[11] == 0xEu8);
    lemma_key_at(12);
    assert(source_keys()[12] == 'Z' && target_keys()[12] == 0xAu8);
    lemma_key_at(13);
    assert(source_keys()[13] == 'X' && target_keys()[13] == 0x0u8);
    lemma_key_at(14);
    assert(source_keys()[14] == 'C' && target_keys()[14] == 0xBu8);
    lemma_key_at(15);
    assert(source_keys()[15] == 'V' && target_keys()[15] == 0xFu8);
}

/// The letters of the block stand for the same keys in lower case.
pub proof fn lemma_keyboard_lower_case()
    ensures
        key_for_char('q') == Some(0x4u8),
        key_for_char('w') == Some(0x5u8),
        key_for_char('e') == Some(0x6u8),
        key_for_char('r') == Some(0xDu8),
        key_for_char('a') == Some(0x7u8),
        key_for_char('s') == Some(0x8u8),
        key_for_char('d') == Some(0x9u8),
        key_for_char('f') == Some(0xEu8),
        key_for_char('z') == Some(0xAu8),
        key_for_char('x') == Some(0x0u8),
        key_for_char('c') == Some(0xBu8),
        key_for_char('v') == Some(0xFu8),
{
    lemma_keyboard_layout();
    assert(ascii_uppercase('q') == 'Q');
    assert(ascii_uppercase('w') == 'W');
    assert(ascii_uppercase('e') == 'E');
    assert(ascii_uppercase('r') == 'R');
    assert(ascii_uppercase('a') == 'A');
    assert(ascii_uppercase('s') == 'S');
    assert(ascii_uppercase('d') == 'D');
    assert(ascii_uppercase('f') == 'F');
    assert(ascii_uppercase('z') == 'Z');
    assert(ascii_uppercase('x') == 'X');
    assert(ascii_uppercase('c') == 'C');
    assert(ascii_uppercase('v') == 'V');
}

/// Letters stand for the same key in either case, and a character outside
/// the block 1 2 3 4 / Q W E R / A S D F / Z X C V stands for no key.
pub proof fn lemma_keyboard_other_chars(c: char)
    ensures
        'a' <= c && c <= 'z' ==> key_for_char(c) == key_for_char(ascii_uppercase(c)),
        !(ascii_uppercase(c) == '1' || ascii_uppercase(c) == '2' || ascii_uppercase(c) == '3'
            || ascii_uppercase(c) == '4' || ascii_uppercase(c) == 'Q' || ascii_uppercase(c) == 'W'
            || ascii_uppercase(c) == 'E' || ascii_uppercase(c) == 'R' || ascii_uppercase(c) == 'A'
            || ascii_uppercase(c) == 'S' || ascii_uppercase(c) == 'D' || ascii_uppercase(c) == 'F'
            || ascii_uppercase(c) == 'Z' || ascii_uppercase(c) == 'X' || ascii_uppercase(c) == 'C'
            || ascii_uppercase(c) == 'V') ==> key_for_char(c) is None,
{
    let u = ascii_uppercase(c);
    if 'a' <= c && c <= 'z' {
        assert(!('a' <= u && u <= 'z'));
        assert(ascii_uppercase(u) == u);
    }
    let s = source_keys();
    if exists|i: int| 0 <= i < 16 && s[i] == u {
        let i = choose|i: int| 0 <= i < 16 && s[i] == u;
        assert(s[0] == '1' && s[1] == '2' && s[2] == '3' && s[3] == '4' && s[4] == 'Q' && s[5]
            == 'W' && s[6] == 'E' && s[7] == 'R' && s[8] == 'A' && s[9] == 'S' && s[10] == 'D'
            && s[11] == 'F' && s[12] == 'Z' && s[13] == 'X' && s[14] == 'C' && s[15] == 'V');
    }
}

} // verus!
