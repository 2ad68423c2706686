//! Keyboard input: scancode translation and the buffer `read` drains.
use vstd::prelude::*;

verus! {

/// Capacity of the keyboard buffer.
pub const BUFFER_SIZE: usize = 256;

/// ASCII code of a key-press scancode on a US layout, 0 when the key has
/// none.
pub open spec fn ascii_of(scancode: u8) -> u8 {
    match scancode {
        1 => 27,
        2 => 49,
        3 => 50,
        4 => 51,
        5 => 52,
        6 => 53,
        7 => 54,
        8 => 55,
        9 => 56,
        10 => 57,
        11 => 48,
        12 => 45,
        13 => 61,
        14 => 8,
        15 => 9,
        16 => 113,
        17 => 119,
        18 => 101,
        19 => 114,
        20 => 116,
        21 => 121,
        22 => 117,
        23 => 105,
        24 => 111,
        25 => 112,
        26 => 91,
        27 => 93,
        28 => 10,
        30 => 97,
        31 => 115,
        32 => 100,
        33 => 102,
        34 => 103,
        35 => 104,
        36 => 106,
        37 => 107,
        38 => 108,
        39 => 59,
        40 => 39,
        41 => 96,
        43 => 92,
        44 => 122,
        45 => 120,
        46 => 99,
        47 => 118,
        48 => 98,
        49 => 110,
        50 => 109,
        51 => 44,
        52 => 46,
        53 => 47,
        55 => 42,
        57 => 32,
        71 => 55,
        72 => 56,
        73 => 57,
        74 => 45,
        75 => 52,
        76 => 53,
        77 => 54,
        78 => 43,
        79 => 49,
        80 => 50,
        81 => 51,
        82 => 48,
        83 => 46,
        _ => 0,
    }
}

/// Character of a key press; `None` for key releases (0x80 and up) and keys
/// without a character.
pub fn scancode_to_ascii(scancode: u8) -> (r: Option<u8>)
    ensures
        scancode >= 0x80 || ascii_of(scancode) == 0 ==> r is None,
        scancode < 0x80 && ascii_of(scancode) != 0 ==> r == Some(ascii_of(scancode)),
{
    if scancode >= 0x80 {
        return None;
    }
    let ascii: u8 = match scancode {
        1 => 27,
        2 => 49,
        3 => 50,
        4 => 51,
        5 => 52,
        6 => 53,
        7 => 54,
        8 => 55,
        9 => 56,
        10 => 57,
        11 => 48,
        12 => 45,
        13 => 61,
        14 => 8,
        15 => 9,
        16 => 113,
        17 => 119,
        18 => 101,
        19 => 114,
        20 => 116,
        21 => 121,
        22 => 117,
        23 => 105,
        24 => 111,
        25 => 112,
        26 => 91,
        27 => 93,
        28 => 10,
        30 => 97,
        31 => 115,
        32 => 100,
        33 => 102,
        34 => 103,
        35 => 104,
        36 => 106,
        37 => 107,
        38 => 108,
        39 => 59,
        40 => 39,
        41 => 96,
        43 => 92,
        44 => 122,
        45 => 120,
        46 => 99,
        47 => 118,
        48 => 98,
        49 => 110,
        50 => 109,
        51 => 44,
        52 => 46,
        53 => 47,
        55 => 42,
        57 => 32,
        71 => 55,
        72 => 56,
        73 => 57,
        74 => 45,
        75 => 52,
        76 => 53,
        77 => 54,
        78 => 43,
        79 => 49,
        80 => 50,
        81 => 51,
        82 => 48,
        83 => 46,
        _ => 0,
    };
    if ascii == 0 {
        None
    } else {
        Some(ascii)
    }
}

/// Circular buffer of typed characters.
pub struct KeyboardBuffer {
    buffer: [u8; 256],
    read_pos: usize,
    write_pos: usize,
    count: usize,
}

impl KeyboardBuffer {
    /// The characters waiting, oldest first.
    pub closed spec fn view(&self) -> Seq<u8> {
        Seq::new(self.count as nat, |i: int| self.buffer@[(self.read_pos + i) % 256])
    }

    pub closed spec fn wf(&self) -> bool {
        &&& self.read_pos < BUFFER_SIZE
        &&& self.write_pos < BUFFER_SIZE
        &&& self.count <= BUFFER_SIZE
        &&& self.write_pos == (self.read_pos + self.count) % 256
    }

    pub fn new() -> (r: Self)
        ensures
            r.wf(),
            r@ == Seq::<u8>::empty(),
    {
        let r = KeyboardBuffer { buffer: [0; 256], read_pos: 0, write_pos: 0, count: 0 };
        assert(r@ =~= Seq::<u8>::empty());
        r
    }

    /// Appends a character; `false` (and nothing changes) when full.
    pub fn push(&mut self, ch: u8) -> (r: bool)
        requires
            old(self).wf(),
        ensures
            final(self).wf(),
            r == (old(self)@.len() < BUFFER_SIZE),
            r ==> final(self)@ == old(self)@.push(ch),
            !r ==> final(self)@ == old(self)@,
    {
        if self.count >= BUFFER_SIZE {
            return false;
        }
        let ghost pre = self@;
        let ghost rp = self.read_pos as int;
        let ghost c = self.count as int;
        self.buffer[self.write_pos] = ch;
        self.write_pos = (self.write_pos + 1) % BUFFER_SIZE;
        self.count = self.count + 1;
        proof {
            assert forall|i: int| 0 <= i < pre.len() implies self@[i] == pre[i] by {
                lemma_distinct_ring_slots(rp, i, c);
            }
            assert(self@ =~= pre.push(ch));
        }
        true
    }

    /// Removes and returns the oldest character.
    pub fn pop(&mut self) -> (r: Option<u8>)
        requires
            old(self).wf(),
        ensures
            final(self).wf(),
            old(self)@.len() == 0 ==> r is None && final(self)@ == old(self)@,
            old(self)@.len() > 0 ==> r == Some(old(self)@[0]) && final(self)@ == old(self)@.drop_first(),
    {
        if self.count == 0 {
            return None;
        }
        let ghost pre = self@;
        let ghost rp = self.read_pos as int;
        let ch = self.buffer[self.read_pos];
        self.read_pos = (self.read_pos + 1) % BUFFER_SIZE;
        self.count = self.count - 1;
        proof {
            assert forall|i: int| 0 <= i < self.count implies self@[i] == pre[i + 1] by {
                lemma_ring_step(rp, i);
            }
            assert(self@ =~= pre.drop_first());
            assert(pre[0] == ch) by {
                vstd::arithmetic::div_mod::lemma_small_mod(rp as nat, 256);
            }
            vstd::arithmetic::div_mod::lemma_add_mod_noop(rp + 1, self.count as int, 256);
            vstd::arithmetic::div_mod::lemma_mod_twice(rp + 1, 256);
        }
        Some(ch)
    }

    /// Moves waiting characters into `buf`, oldest first, until either runs
    /// out; returns how many moved.
    pub fn read(&mut self, buf: &mut [u8]) -> (r: usize)
        requires
            old(self).wf(),
        ensures
            final(self).wf(),
            r == vstd::math::min(old(buf)@.len() as int, old(self)@.len() as int),
            final(buf)@.len() == old(buf)@.len(),
            final(buf)@.subrange(0, r as int) == old(self)@.subrange(0, r as int),
            final(buf)@.subrange(r as int, old(buf)@.len() as int) == old(buf)@.subrange(r as int, old(buf)@.len() as int),
            final(self)@ == old(self)@.subrange(r as int, old(self)@.len() as int),
    {
        let mut bytes_read: usize = 0;
        while bytes_read < buf.len()
            invariant
                self.wf(),
                bytes_read <= buf@.len(),
                buf@.len() == old(buf)@.len(),
                bytes_read <= old(self)@.len(),
                self@ == old(self)@.subrange(bytes_read as int, old(self)@.len() as int),
                buf@.subrange(0, bytes_read as int) == old(self)@.subrange(0, bytes_read as int),
                buf@.subrange(bytes_read as int, buf@.len() as int) == old(buf)@.subrange(bytes_read as int, old(buf)@.len() as int),
            ensures
                bytes_read == buf@.len() || bytes_read == old(self)@.len(),
                bytes_read <= buf@.len(),
                bytes_read <= old(self)@.len(),
            decreases buf@.len() - bytes_read,
        {
            let ghost pb = buf@;
            let ghost ps = self@;
            match self.pop() {
                Some(ch) => {
                    buf[bytes_read] = ch;
                    proof {
                        assert(pb.subrange(0, bytes_read as int) =~= old(self)@.subrange(0, bytes_read as int));
                        assert(ps[0] == old(self)@[bytes_read as int]);
                        assert(buf@.subrange(0, bytes_read + 1) =~= old(self)@.subrange(0, bytes_read + 1)) by {
                            assert forall|k: int| 0 <= k < bytes_read + 1 implies buf@[k] == old(self)@[k] by {
                                if k < bytes_read {
                                    assert(pb.subrange(0, bytes_read as int)[k] == old(self)@.subrange(0, bytes_read as int)[k]);
                                }
                            }
                        }
                        assert(buf@.subrange(bytes_read + 1, buf@.len() as int) =~= old(buf)@.subrange(bytes_read + 1, old(buf)@.len() as int)) by {
                            assert forall|k: int| bytes_read + 1 <= k < buf@.len() implies buf@[k] == old(buf)@[k] by {
                                assert(pb.subrange(bytes_read as int, pb.len() as int)[k - bytes_read] == old(buf)@.subrange(bytes_read as int, old(buf)@.len() as int)[k - bytes_read]);
                            }
                        }
                        assert(self@ =~= old(self)@.subrange(bytes_read + 1, old(self)@.len() as int));
                    }
                    bytes_read = bytes_read + 1;
                },
                None => {
                    proof {
                        assert(bytes_read == old(self)@.len());
                    }
                    break;
                },
            }
        }
        bytes_read
    }

    /// Whether a character is waiting.
    pub fn has_data(&self) -> (r: bool)
        requires
            self.wf(),
        ensures
            r == (self@.len() > 0),
    {
        self.count > 0
    }

    /// Number of characters waiting.
    pub fn available(&self) -> (r: usize)
        requires
            self.wf(),
        ensures
            r == self@.len(),
    {
        self.count
    }
}

proof fn lemma_distinct_ring_slots(rp: int, i: int, c: int)
    requires
        0 <= rp < 256,
        0 <= i < c < 256,
    ensures
        (rp + i) % 256 != (rp + c) % 256,
{
    if rp + c < 256 {
        vstd::arithmetic::div_mod::lemma_small_mod((rp + i) as nat, 256);
        vstd::arithmetic::div_mod::lemma_small_mod((rp + c) as nat, 256);
    } else if rp + i < 256 {
        vstd::arithmetic::div_mod::lemma_small_mod((rp + i) as nat, 256);
        vstd::arithmetic::div_mod::lemma_mod_sub_multiples_vanish(rp + c, 256);
        vstd::arithmetic::div_mod::lemma_small_mod((rp + c - 256) as nat, 256);
    } else {
        vstd::arithmetic::div_mod::lemma_mod_sub_multiples_vanish(rp + i, 256);
        vstd::arithmetic::div_mod::lemma_small_mod((rp + i - 256) as nat, 256);
        vstd::arithmetic::div_mod::lemma_mod_sub_multiples_vanish(rp + c, 256);
        vstd::arithmetic::div_mod::lemma_small_mod((rp + c - 256) as nat, 256);
    }
}

proof fn lemma_ring_step(rp: int, i: int)
    requires
        0 <= rp < 256,
        0 <= i < 256,
    ensures
        ((rp + 1) % 256 + i) % 256 == (rp + (i + 1)) % 256,
{
    vstd::arithmetic::div_mod::lemma_add_mod_noop(rp + 1, i, 256);
    vstd::arithmetic::div_mod::lemma_mod_twice(rp + 1, 256);
    vstd::arithmetic::div_mod::lemma_small_mod(i as nat, 256);
}

/// Translates a scancode from the keyboard interrupt and queues its
/// character; characters of a full buffer are dropped.
pub fn push_scancode(buffer: &mut KeyboardBuffer, scancode: u8)
    requires
        old(buffer).wf(),
    ensures
        final(buffer).wf(),
        scancode >= 0x80 || ascii_of(scancode) == 0 || old(buffer)@.len() >= BUFFER_SIZE ==> final(buffer)@
            == old(buffer)@,
        scancode < 0x80 && ascii_of(scancode) != 0 && old(buffer)@.len() < BUFFER_SIZE ==> final(buffer)@
            == old(buffer)@.push(ascii_of(scancode)),
{
    if let Some(ascii) = scancode_to_ascii(scancode) {
        let _ = buffer.push(ascii);
    }
}

} // verus!
