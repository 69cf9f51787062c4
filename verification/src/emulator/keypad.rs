use vstd::prelude::*;

verus! {

/// Whether key `k` of the hexadecimal keypad is down in the bitmask `mask`.
pub open spec fn key_bit(mask: u16, k: u8) -> bool {
    k < 16 && (mask >> k) & 1 == 1
}

/// The keypad as a set of keys held down and the key pressed last.
pub ghost struct KeypadView {
    pub pressed: Set<u8>,
    pub last: Option<u8>,
}

/// The sixteen keys of the CHIP-8 keypad, numbered 0x0 to 0xF.
pub struct Keypad {
    /// Bit `k` is set while key `k` is held down.
    pressed_keys: u16,
    /// The key pressed most recently, whether or not it is still held.
    last_pressed_key: Option<u8>,
}

proof fn lemma_bit_set(m: u16, key: u8, k: u8)
    requires
        key < 16,
        k < 16,
    ensures
        ((m | (1u16 << key)) >> k) & 1 == 1 <==> ((m >> k) & 1 == 1 || k == key),
{
    assert(((m | (1u16 << key)) >> k) & 1 == 1 <==> ((m >> k) & 1 == 1 || k == key))
        by (bit_vector)
        requires
            key < 16,
            k < 16,
    ;
}

proof fn lemma_bit_clear(m: u16, key: u8, k: u8)
    requires
        key < 16,
        k < 16,
    ensures
        ((m & !(1u16 << key)) >> k) & 1 == 1 <==> ((m >> k) & 1 == 1 && k != key),
{
    assert(((m & !(1u16 << key)) >> k) & 1 == 1 <==> ((m >> k) & 1 == 1 && k != key))
        by (bit_vector)
        requires
            key < 16,
            k < 16,
    ;
}

proof fn lemma_bit_test(m: u16, key: u8)
    requires
        key < 16,
    ensures
        (m & (1u16 << key) != 0) <==> (m >> key) & 1 == 1,
{
    assert((m & (1u16 << key) != 0) <==> (m >> key) & 1 == 1) by (bit_vector)
        requires
            key < 16,
    ;
}

proof fn lemma_nonzero_has_bit(m: u16)
    ensures
        m != 0 <==> exists|k: u8| key_bit(m, k),
{
    if m != 0 {
        assert(m != 0 ==> (m >> 0u8) & 1 == 1 || (m >> 1u8) & 1 == 1 || (m >> 2u8) & 1 == 1
            || (m >> 3u8) & 1 == 1 || (m >> 4u8) & 1 == 1 || (m >> 5u8) & 1 == 1 || (m >> 6u8)
            & 1 == 1 || (m >> 7u8) & 1 == 1 || (m >> 8u8) & 1 == 1 || (m >> 9u8) & 1 == 1 || (m
            >> 10u8) & 1 == 1 || (m >> 11u8) & 1 == 1 || (m >> 12u8) & 1 == 1 || (m >> 13u8) & 1
            == 1 || (m >> 14u8) & 1 == 1 || (m >> 15u8) & 1 == 1) by (bit_vector);
        if key_bit(m, 0) {} else if key_bit(m, 1) {} else if key_bit(m, 2) {}
        else if key_bit(m, 3) {} else if key_bit(m, 4) {} else if key_bit(m, 5) {}
        else if key_bit(m, 6) {} else if key_bit(m, 7) {} else if key_bit(m, 8) {}
        else if key_bit(m, 9) {} else if key_bit(m, 10) {} else if key_bit(m, 11) {}
        else if key_bit(m, 12) {} else if key_bit(m, 13) {} else if key_bit(m, 14) {}
        else { assert(key_bit(m, 15)); }
    } else {
        assert forall|k: u8| !key_bit(m, k) by {
            if k < 16 {
                assert((0u16 >> k) & 1 == 0) by (bit_vector);
            }
        }
    }
}

impl Keypad {
    pub closed spec fn view(&self) -> KeypadView {
        KeypadView {
            pressed: Set::new(|k: u8| key_bit(self.pressed_keys, k)),
            last: self.last_pressed_key,
        }
    }

    /// The keypad's invariant: the last key pressed is a key of the pad, and
    /// a key can only be down once some key has been pressed.
    pub open spec fn wf(&self) -> bool {
        &&& (self@.last matches Some(k) ==> k < 16)
        &&& ((exists|k: u8| self@.pressed.contains(k)) ==> self@.last is Some)
        &&& (forall|k: u8| self@.pressed.contains(k) ==> k < 16)
    }

    /// A keypad with no key down and no key pressed yet.
    pub fn new() -> (r: Self)
        ensures
            r.wf(),
            r@.pressed == Set::<u8>::empty(),
            r@.last is None,
    {
        let r = Self { pressed_keys: 0, last_pressed_key: None };
        proof {
            lemma_nonzero_has_bit(0);
            assert(r@.pressed =~= Set::<u8>::empty());
        }
        r
    }

    /// Marks `key` as held down and as the key pressed last.
    pub fn press_key(&mut self, key: u8)
        requires
            old(self).wf(),
            key < 16,
        ensures
            final(self).wf(),
            final(self)@.pressed == old(self)@.pressed.insert(key),
            final(self)@.last == Some(key),
    {
        let ghost m = self.pressed_keys;
        self.pressed_keys |= 1 << key;
        self.last_pressed_key = Some(key);
        proof {
            assert forall|k: u8| #[trigger] self@.pressed.contains(k)
                <==> old(self)@.pressed.insert(key).contains(k) by {
                if k < 16 {
                    lemma_bit_set(m, key, k);
                }
            }
            assert(self@.pressed =~= old(self)@.pressed.insert(key));
        }
    }

    /// Marks `key` as released; the key pressed last stays as it was.
    pub fn release_key(&mut self, key: u8)
        requires
            old(self).wf(),
            key < 16,
        ensures
            final(self).wf(),
            final(self)@.pressed == old(self)@.pressed.remove(key),
            final(self)@.last == old(self)@.last,
    {
        let ghost m = self.pressed_keys;
        self.pressed_keys &= !(1 << key);
        proof {
            assert forall|k: u8| #[trigger] self@.pressed.contains(k)
                <==> old(self)@.pressed.remove(key).contains(k) by {
                if k < 16 {
                    lemma_bit_clear(m, key, k);
                }
            }
            assert(self@.pressed =~= old(self)@.pressed.remove(key));
        }
    }

    /// Whether `key` is held down.
    pub fn is_key_pressed(&self, key: u8) -> (r: bool)
        requires
            key < 16,
        ensures
            r == self@.pressed.contains(key),
    {
        proof {
            lemma_bit_test(self.pressed_keys, key);
        }
        self.pressed_keys & (1 << key) != 0
    }

    /// Whether any key is held down.
    pub fn is_any_key_pressed(&self) -> (r: bool)
        ensures
            r == exists|k: u8| self@.pressed.contains(k),
    {
        proof {
            lemma_nonzero_has_bit(self.pressed_keys);
            assert((exists|k: u8| key_bit(self.pressed_keys, k)) <==> exists|k: u8|
                self@.pressed.contains(k)) by {
                if exists|k: u8| key_bit(self.pressed_keys, k) {
                    let k = choose|k: u8| key_bit(self.pressed_keys, k);
                    assert(self@.pressed.contains(k));
                }
            }
        }
        self.pressed_keys != 0
    }

    /// The key pressed most recently.
    pub fn get_last_pressed_key(&self) -> (r: u8)
        requires
            self@.last is Some,
        ensures
            r == self@.last->0,
    {
        self.last_pressed_key.unwrap()
    }
}

} // verus!
