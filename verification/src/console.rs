//! The QEMU console output: every character goes out as one byte to the UART data register,
//! a newline preceded by a carriage return, and every byte sent is counted.
use vstd::prelude::*;

verus! {

/// The bytes that send `s`: each character as its low eight bits, a newline preceded by a
/// carriage return.
pub open spec fn console_bytes(s: Seq<char>) -> Seq<u8>
    decreases s.len(),
{
    if s.len() == 0 {
        Seq::empty()
    } else {
        console_bytes(s.drop_last()) + char_bytes(s.last())
    }
}

/// The bytes that send one character.
pub open spec fn char_bytes(c: char) -> Seq<u8> {
    if c == '\n' {
        seq!['\r' as u8, '\n' as u8]
    } else {
        seq![c as u8]
    }
}

/// Sending `a` and then `b` sends the bytes of `a + b`.
pub proof fn lemma_console_bytes_concat(a: Seq<char>, b: Seq<char>)
    ensures
        console_bytes(a) + console_bytes(b) == console_bytes(a + b),
    decreases b.len(),
{
    if b.len() == 0 {
        assert(a + b =~= a);
        assert(console_bytes(a) + console_bytes(b) =~= console_bytes(a));
    } else {
        lemma_console_bytes_concat(a, b.drop_last());
        assert((a + b).drop_last() =~= a + b.drop_last());
        assert((a + b).last() == b.last());
        assert(console_bytes(a) + console_bytes(b) =~= console_bytes(a) + console_bytes(b.drop_last())
            + char_bytes(b.last()));
    }
}

/// The state of the QEMU console: how many bytes it has sent.
pub struct QEMUOutputInner {
    pub chars_written: usize,
}

impl QEMUOutputInner {
    /// A console that has sent nothing.
    pub fn new() -> (c: QEMUOutputInner)
        ensures
            c.chars_written == 0,
    {
        QEMUOutputInner { chars_written: 0 }
    }

    /// Sends one byte: counts it and hands it back to be stored in the data register.
    pub fn write_char(&mut self, character: char) -> (byte: u8)
        requires
            old(self).chars_written < usize::MAX,
        ensures
            byte == character as u8,
            final(self).chars_written == old(self).chars_written + 1,
    {
        self.chars_written += 1;
        #[verifier::truncate] (character as u8)
    }

    /// Writes `s`: the bytes to store in the data register, in order. Each one is counted.
    pub fn write_str(&mut self, s: &str) -> (bytes: Vec<u8>)
        requires
            old(self).chars_written + console_bytes(s@).len() <= usize::MAX,
        ensures
            bytes@ == console_bytes(s@),
            final(self).chars_written == old(self).chars_written + bytes@.len(),
    {
        let n = s.unicode_len();
        let mut bytes: Vec<u8> = Vec::new();
        let mut i: usize = 0;
        proof {
            lemma_console_bytes_prefix(s@, 0);
        }
        while i < n
            invariant
                n == s@.len(),
                i <= n,
                bytes@ == console_bytes(s@.take(i as int)),
                self.chars_written == old(self).chars_written + bytes@.len(),
                old(self).chars_written + console_bytes(s@).len() <= usize::MAX,
            decreases n - i,
        {
            let character = s.get_char(i);
            proof {
                lemma_console_bytes_prefix(s@, i + 1);
                assert(s@.take(i + 1).drop_last() =~= s@.take(i as int));
                assert(s@.take(i + 1).last() == character);
            }
            if character == '\n' {
                let b = self.write_char('\r');
                bytes.push(b);
            }
            let b = self.write_char(character);
            bytes.push(b);
            assert(bytes@ =~= console_bytes(s@.take(i + 1)));
            i = i + 1;
        }
        assert(s@.take(n as int) =~= s@);
        bytes
    }
}

/// Sending a prefix of `s` sends no more bytes than sending all of `s`.
pub proof fn lemma_console_bytes_prefix(s: Seq<char>, i: int)
    requires
        0 <= i <= s.len(),
    ensures
        console_bytes(s.take(i)).len() <= console_bytes(s).len(),
    decreases s.len() - i,
{
    if i < s.len() {
        lemma_console_bytes_prefix(s, i + 1);
        assert(s.take(i + 1).drop_last() =~= s.take(i));
    } else {
        assert(s.take(i) =~= s);
    }
}

/// The number of newlines in `s`.
pub open spec fn newline_count(s: Seq<char>) -> nat
    decreases s.len(),
{
    if s.len() == 0 {
        0
    } else {
        newline_count(s.drop_last()) + if s.last() == '\n' { 1nat } else { 0nat }
    }
}

/// The console counts one byte per character and one more per newline (its carriage return).
pub proof fn lemma_console_count(s: Seq<char>)
    ensures
        console_bytes(s).len() == s.len() + newline_count(s),
    decreases s.len(),
{
    if s.len() > 0 {
        lemma_console_count(s.drop_last());
    }
}

/// A newline goes out as a carriage return (13) followed by a line feed (10); any other
/// character as the one byte of its code modulo 256.
pub proof fn lemma_char_bytes(c: char)
    ensures
        char_bytes('\n') == seq![13u8, 10u8],
        c != '\n' ==> char_bytes(c).len() == 1 && char_bytes(c)[0] as int == (c as u32) % 256,
{
    let v = c as u32;
    assert(v as u8 == v % 256) by (bit_vector);
    assert(char_bytes('\n') =~= seq![13u8, 10u8]);
}

} // verus!
