use vstd::prelude::*;
use vstd::string::*;
use crate::constants::{
    HS_FLAG_ALLOWEMPTY, HS_FLAG_CASELESS, HS_FLAG_COMBINATION, HS_FLAG_DOTALL, HS_FLAG_LETTERED,
    HS_FLAG_MULTILINE, HS_FLAG_QUIET, HS_FLAG_SINGLEMATCH, HS_FLAG_UCP, HS_FLAG_UTF8,
};
use crate::errors::ErrorKind;

verus! {

/// Flags which modify the behaviour of an expression, as a bit mask.
#[derive(Debug, Copy, Clone, PartialEq, Eq, Structural)]
pub struct CompileFlags(pub u32);

/// The flag that a letter of the textual form stands for.
pub open spec fn letter_flag(c: char) -> Option<u32> {
    if c == 'i' {
        Some(HS_FLAG_CASELESS)
    } else if c == 'm' {
        Some(HS_FLAG_MULTILINE)
    } else if c == 's' {
        Some(HS_FLAG_DOTALL)
    } else if c == 'H' {
        Some(HS_FLAG_SINGLEMATCH)
    } else if c == 'V' {
        Some(HS_FLAG_ALLOWEMPTY)
    } else if c == '8' {
        Some(HS_FLAG_UTF8)
    } else if c == 'W' {
        Some(HS_FLAG_UCP)
    } else if c == 'C' {
        Some(HS_FLAG_COMBINATION)
    } else if c == 'Q' {
        Some(HS_FLAG_QUIET)
    } else {
        None
    }
}

/// Reading `s` from the left on top of the bits `acc`: every letter adds its
/// flag, and the first character that is no letter ends the reading.
pub open spec fn read_letters(s: Seq<char>, acc: u32) -> Result<u32, char>
    decreases s.len(),
{
    if s.len() == 0 {
        Ok(acc)
    } else {
        match letter_flag(s[0]) {
            Some(bit) => read_letters(s.drop_first(), acc | bit),
            None => Err(s[0]),
        }
    }
}

/// What a flag string means: the flags of its letters, or the first
/// character that names none.
pub open spec fn parse_flags(s: Seq<char>) -> Result<CompileFlags, ErrorKind> {
    match read_letters(s, 0) {
        Ok(bits) => Ok(CompileFlags(bits)),
        Err(c) => Err(ErrorKind::InvalidFlag(c)),
    }
}

/// The letter `c` where all bits of `flag` are set in `bits`, else nothing.
pub open spec fn letter_if_set(bits: u32, flag: u32, c: char) -> Seq<char> {
    if bits & flag == flag {
        seq![c]
    } else {
        Seq::empty()
    }
}

/// The textual form of a flag set: one letter per set flag, in the fixed
/// order `imsHV8WCQ`.
pub open spec fn render_flags(bits: u32) -> Seq<char> {
    letter_if_set(bits, HS_FLAG_CASELESS, 'i')
        + letter_if_set(bits, HS_FLAG_MULTILINE, 'm')
        + letter_if_set(bits, HS_FLAG_DOTALL, 's')
        + letter_if_set(bits, HS_FLAG_SINGLEMATCH, 'H')
        + letter_if_set(bits, HS_FLAG_ALLOWEMPTY, 'V')
        + letter_if_set(bits, HS_FLAG_UTF8, '8')
        + letter_if_set(bits, HS_FLAG_UCP, 'W')
        + letter_if_set(bits, HS_FLAG_COMBINATION, 'C')
        + letter_if_set(bits, HS_FLAG_QUIET, 'Q')
}

impl CompileFlags {
    /// Only flags that have a letter are set.
    pub open spec fn is_valid(&self) -> bool {
        self.0 & !HS_FLAG_LETTERED == 0
    }

    /// Whether every bit of `flag` is set.
    #[inline]
    pub fn is_set(&self, flag: u32) -> (r: bool)
        ensures
            r == (self.0 & flag == flag),
    {
        self.0 & flag == flag
    }

    /// Sets the bits of `flag` and leaves the others as they are.
    #[inline]
    pub fn set(&mut self, flag: u32) -> (r: &mut Self)
        ensures
            r.0 == old(self).0 | flag,
            *final(self) == *final(r),
    {
        self.0 |= flag;
        self
    }

    /// Reads a flag string, letter by letter.
    pub fn parse(s: &str) -> (r: Result<CompileFlags, ErrorKind>)
        ensures
            r == parse_flags(s@),
            r matches Ok(flags) ==> flags.is_valid(),
    {
        proof {
            assert(0u32 & !1663u32 == 0) by (bit_vector);
            lemma_parsed_flags_valid(s@, 0);
        }
        let n: usize = s.unicode_len();
        let mut flags: u32 = 0;
        let mut i: usize = 0;
        assert(s@.skip(0) =~= s@);
        while i < n
            invariant
                n == s@.len(),
                i <= n,
                read_letters(s@, 0) == read_letters(s@.skip(i as int), flags),
            decreases n - i,
        {
            let c = s.get_char(i);
            proof {
                assert(s@.skip(i as int)[0] == c);
                assert(s@.skip(i as int).drop_first() =~= s@.skip(i + 1));
            }
            if c == 'i' {
                flags |= HS_FLAG_CASELESS;
            } else if c == 'm' {
                flags |= HS_FLAG_MULTILINE;
            } else if c == 's' {
                flags |= HS_FLAG_DOTALL;
            } else if c == 'H' {
                flags |= HS_FLAG_SINGLEMATCH;
            } else if c == 'V' {
                flags |= HS_FLAG_ALLOWEMPTY;
            } else if c == '8' {
                flags |= HS_FLAG_UTF8;
            } else if c == 'W' {
                flags |= HS_FLAG_UCP;
            } else if c == 'C' {
                flags |= HS_FLAG_COMBINATION;
            } else if c == 'Q' {
                flags |= HS_FLAG_QUIET;
            } else {
                return Err(ErrorKind::InvalidFlag(c));
            }
            i += 1;
        }
        Ok(CompileFlags(flags))
    }

    /// The textual form of the flags.
    pub fn to_string(&self) -> (r: String)
        ensures
            r@ == render_flags(self.0),
    {
        let mut out = String::new();
        proof {
            reveal_strlit("i");
            reveal_strlit("m");
            reveal_strlit("s");
            reveal_strlit("H");
            reveal_strlit("V");
            reveal_strlit("8");
            reveal_strlit("W");
            reveal_strlit("C");
            reveal_strlit("Q");
            assert("i"@ =~= seq!['i']);
            assert("m"@ =~= seq!['m']);
            assert("s"@ =~= seq!['s']);
            assert("H"@ =~= seq!['H']);
            assert("V"@ =~= seq!['V']);
            assert("8"@ =~= seq!['8']);
            assert("W"@ =~= seq!['W']);
            assert("C"@ =~= seq!['C']);
            assert("Q"@ =~= seq!['Q']);
        }
        if self.is_set(HS_FLAG_CASELESS) {
            out.append("i");
        }
        if self.is_set(HS_FLAG_MULTILINE) {
            out.append("m");
        }
        if self.is_set(HS_FLAG_DOTALL) {
            out.append("s");
        }
        if self.is_set(HS_FLAG_SINGLEMATCH) {
            out.append("H");
        }
        if self.is_set(HS_FLAG_ALLOWEMPTY) {
            out.append("V");
        }
        if self.is_set(HS_FLAG_UTF8) {
            out.append("8");
        }
        if self.is_set(HS_FLAG_UCP) {
            out.append("W");
        }
        if self.is_set(HS_FLAG_COMBINATION) {
            out.append("C");
        }
        if self.is_set(HS_FLAG_QUIET) {
            out.append("Q");
        }
        assert(out@ =~= render_flags(self.0));
        out
    }
}

impl From<u32> for CompileFlags {
    fn from(flags: u32) -> (r: CompileFlags) {
        CompileFlags(flags)
    }
}

impl vstd::std_specs::convert::FromSpecImpl<u32> for CompileFlags {
    open spec fn obeys_from_spec() -> bool {
        true
    }

    open spec fn from_spec(flags: u32) -> CompileFlags {
        CompileFlags(flags)
    }
}

impl From<CompileFlags> for u32 {
    fn from(flags: CompileFlags) -> (r: u32) {
        flags.0
    }
}

impl vstd::std_specs::convert::FromSpecImpl<CompileFlags> for u32 {
    open spec fn obeys_from_spec() -> bool {
        true
    }

    open spec fn from_spec(flags: CompileFlags) -> u32 {
        flags.0
    }
}

impl core::str::FromStr for CompileFlags {
    type Err = ErrorKind;

    #[inline]
    fn from_str(s: &str) -> (r: Result<CompileFlags, ErrorKind>)
        ensures
            r == parse_flags(s@),
    {
        CompileFlags::parse(s)
    }
}

impl Default for CompileFlags {
    fn default() -> (r: CompileFlags)
        ensures
            r.0 == 0,
    {
        CompileFlags(0)
    }
}

/// The bits `acc` after the letter of `flag` was read, if `bits` shows it.
pub open spec fn with_flag(acc: u32, bits: u32, flag: u32) -> u32 {
    if bits & flag == flag {
        acc | flag
    } else {
        acc
    }
}

/// Reading two strings in a row is reading the first, then the second on top
/// of what the first gave.
pub proof fn lemma_read_letters_concat(a: Seq<char>, b: Seq<char>, acc: u32)
    ensures
        read_letters(a + b, acc) == match read_letters(a, acc) {
            Ok(x) => read_letters(b, x),
            Err(c) => Err(c),
        },
    decreases a.len(),
{
    if a.len() == 0 {
        assert(a + b =~= b);
    } else {
        assert((a + b)[0] == a[0]);
        assert((a + b).drop_first() =~= a.drop_first() + b);
        match letter_flag(a[0]) {
            Some(bit) => {
                lemma_read_letters_concat(a.drop_first(), b, acc | bit);
            },
            None => {},
        }
    }
}

/// One step of reading a rendered flag set: the letter of `flag`, present or
/// not, adds exactly the bits of `flag` that `bits` holds.
proof fn lemma_read_letter_if_set(prefix: Seq<char>, x: u32, bits: u32, flag: u32, c: char)
    requires
        letter_flag(c) == Some(flag),
        read_letters(prefix, 0) == Ok::<u32, char>(x),
    ensures
        read_letters(prefix + letter_if_set(bits, flag, c), 0) == Ok::<u32, char>(
            with_flag(x, bits, flag),
        ),
{
    let piece = letter_if_set(bits, flag, c);
    lemma_read_letters_concat(prefix, piece, 0);
    if bits & flag == flag {
        assert(piece[0] == c);
        assert(piece.drop_first() =~= Seq::<char>::empty());
        assert(read_letters(piece.drop_first(), x | flag) == Ok::<u32, char>(x | flag));
    } else {
        assert(read_letters(piece, x) == Ok::<u32, char>(x));
    }
}

/// Collecting each lettered flag of `bits` in turn gives its lettered bits.
proof fn lemma_collected_flags(bits: u32)
    ensures
        ({
            let a1 = with_flag(0, bits, 1);
            let a2 = with_flag(a1, bits, 4);
            let a3 = with_flag(a2, bits, 2);
            let a4 = with_flag(a3, bits, 8);
            let a5 = with_flag(a4, bits, 16);
            let a6 = with_flag(a5, bits, 32);
            let a7 = with_flag(a6, bits, 64);
            let a8 = with_flag(a7, bits, 512);
            with_flag(a8, bits, 1024) == bits & 1663
        }),
{
    let a1: u32 = with_flag(0, bits, 1);
    let a2: u32 = with_flag(a1, bits, 4);
    let a3: u32 = with_flag(a2, bits, 2);
    let a4: u32 = with_flag(a3, bits, 8);
    let a5: u32 = with_flag(a4, bits, 16);
    let a6: u32 = with_flag(a5, bits, 32);
    let a7: u32 = with_flag(a6, bits, 64);
    let a8: u32 = with_flag(a7, bits, 512);
    let a9: u32 = with_flag(a8, bits, 1024);
    assert(a1 == bits & 1) by (bit_vector)
        requires
            a1 == (if bits & 1 == 1 { 0u32 | 1 } else { 0u32 }),
    ;
    assert(a2 == a1 | (bits & 4)) by (bit_vector)
        requires
            a2 == (if bits & 4 == 4 { a1 | 4 } else { a1 }),
    ;
    assert(a3 == a2 | (bits & 2)) by (bit_vector)
        requires
            a3 == (if bits & 2 == 2 { a2 | 2 } else { a2 }),
    ;
    assert(a4 == a3 | (bits & 8)) by (bit_vector)
        requires
            a4 == (if bits & 8 == 8 { a3 | 8 } else { a3 }),
    ;
    assert(a5 == a4 | (bits & 16)) by (bit_vector)
        requires
            a5 == (if bits & 16 == 16 { a4 | 16 } else { a4 }),
    ;
    assert(a6 == a5 | (bits & 32)) by (bit_vector)
        requires
            a6 == (if bits & 32 == 32 { a5 | 32 } else { a5 }),
    ;
    assert(a7 == a6 | (bits & 64)) by (bit_vector)
        requires
            a7 == (if bits & 64 == 64 { a6 | 64 } else { a6 }),
    ;
    assert(a8 == a7 | (bits & 512)) by (bit_vector)
        requires
            a8 == (if bits & 512 == 512 { a7 | 512 } else { a7 }),
    ;
    assert(a9 == a8 | (bits & 1024)) by (bit_vector)
        requires
            a9 == (if bits & 1024 == 1024 { a8 | 1024 } else { a8 }),
    ;
    assert(a9 == bits & 1663) by (bit_vector)
        requires
            a1 == bits & 1,
            a2 == a1 | (bits & 4),
            a3 == a2 | (bits & 2),
            a4 == a3 | (bits & 8),
            a5 == a4 | (bits & 16),
            a6 == a5 | (bits & 32),
            a7 == a6 | (bits & 64),
            a8 == a7 | (bits & 512),
            a9 == a8 | (bits & 1024),
    ;
}

/// Reading the textual form of a flag set gives back its lettered bits.
pub proof fn lemma_read_rendered(bits: u32)
    ensures
        read_letters(render_flags(bits), 0) == Ok::<u32, char>(bits & HS_FLAG_LETTERED),
{
    let t0 = Seq::<char>::empty();
    let t1 = letter_if_set(bits, HS_FLAG_CASELESS, 'i');
    let t2 = t1 + letter_if_set(bits, HS_FLAG_MULTILINE, 'm');
    let t3 = t2 + letter_if_set(bits, HS_FLAG_DOTALL, 's');
    let t4 = t3 + letter_if_set(bits, HS_FLAG_SINGLEMATCH, 'H');
    let t5 = t4 + letter_if_set(bits, HS_FLAG_ALLOWEMPTY, 'V');
    let t6 = t5 + letter_if_set(bits, HS_FLAG_UTF8, '8');
    let t7 = t6 + letter_if_set(bits, HS_FLAG_UCP, 'W');
    let t8 = t7 + letter_if_set(bits, HS_FLAG_COMBINATION, 'C');
    let t9 = t8 + letter_if_set(bits, HS_FLAG_QUIET, 'Q');
    let a1: u32 = with_flag(0, bits, 1);
    let a2: u32 = with_flag(a1, bits, 4);
    let a3: u32 = with_flag(a2, bits, 2);
    let a4: u32 = with_flag(a3, bits, 8);
    let a5: u32 = with_flag(a4, bits, 16);
    let a6: u32 = with_flag(a5, bits, 32);
    let a7: u32 = with_flag(a6, bits, 64);
    let a8: u32 = with_flag(a7, bits, 512);
    assert(t0 + t1 =~= t1);
    lemma_read_letter_if_set(t0, 0, bits, HS_FLAG_CASELESS, 'i');
    lemma_read_letter_if_set(t1, a1, bits, HS_FLAG_MULTILINE, 'm');
    lemma_read_letter_if_set(t2, a2, bits, HS_FLAG_DOTALL, 's');
    lemma_read_letter_if_set(t3, a3, bits, HS_FLAG_SINGLEMATCH, 'H');
    lemma_read_letter_if_set(t4, a4, bits, HS_FLAG_ALLOWEMPTY, 'V');
    lemma_read_letter_if_set(t5, a5, bits, HS_FLAG_UTF8, '8');
    lemma_read_letter_if_set(t6, a6, bits, HS_FLAG_UCP, 'W');
    lemma_read_letter_if_set(t7, a7, bits, HS_FLAG_COMBINATION, 'C');
    lemma_read_letter_if_set(t8, a8, bits, HS_FLAG_QUIET, 'Q');
    lemma_collected_flags(bits);
    assert(render_flags(bits) == t9);
}

/// Round trip: the textual form of a valid flag set parses back to that set.
pub proof fn lemma_parse_render_roundtrip(flags: CompileFlags)
    requires
        flags.is_valid(),
    ensures
        parse_flags(render_flags(flags.0)) == Ok::<CompileFlags, ErrorKind>(flags),
{
    lemma_read_rendered(flags.0);
    let bits = flags.0;
    assert(bits & 1663 == bits) by (bit_vector)
        requires
            bits & !1663u32 == 0,
    ;
}

/// A flag that was set is set, and setting it again changes nothing.
pub proof fn lemma_set_then_is_set(bits: u32, flag: u32)
    ensures
        (bits | flag) & flag == flag,
        (bits | flag) | flag == bits | flag,
{
    assert((bits | flag) & flag == flag) by (bit_vector);
    assert((bits | flag) | flag == bits | flag) by (bit_vector);
}

/// A flag string never yields a bit that has no letter.
pub proof fn lemma_parsed_flags_valid(s: Seq<char>, acc: u32)
    requires
        acc & !1663u32 == 0,
    ensures
        read_letters(s, acc) matches Ok(bits) ==> bits & !HS_FLAG_LETTERED == 0,
    decreases s.len(),
{
    if s.len() > 0 {
        match letter_flag(s[0]) {
            Some(bit) => {
                assert((acc | bit) & !1663u32 == 0) by (bit_vector)
                    requires
                        acc & !1663u32 == 0,
                        bit == 1 || bit == 2 || bit == 4 || bit == 8 || bit == 16 || bit == 32
                            || bit == 64 || bit == 512 || bit == 1024,
                ;
                lemma_parsed_flags_valid(s.drop_first(), acc | bit);
            },
            None => {},
        }
    }
}

/// A flag string is read to the end exactly where each of its characters is
/// a flag letter.
pub proof fn lemma_read_ok_iff_all_letters(s: Seq<char>, acc: u32)
    ensures
        read_letters(s, acc) is Ok <==> (forall|i: int|
            0 <= i < s.len() ==> letter_flag(#[trigger] s[i]) is Some),
    decreases s.len(),
{
    if s.len() > 0 {
        let rest = s.drop_first();
        match letter_flag(s[0]) {
            Some(bit) => {
                lemma_read_ok_iff_all_letters(rest, acc | bit);
                if read_letters(s, acc) is Ok {
                    assert forall|i: int| 0 <= i < s.len() implies letter_flag(
                        #[trigger] s[i],
                    ) is Some by {
                        if i > 0 {
                            assert(s[i] == rest[i - 1]);
                        }
                    }
                } else {
                    let i = choose|i: int| 0 <= i < rest.len() && !(letter_flag(rest[i]) is Some);
                    assert(s[i + 1] == rest[i]);
                }
            },
            None => {},
        }
    }
}

/// What reading a flag string gives: a lettered flag is in the result
/// exactly where it was there before or its letter stands in the string.
pub proof fn lemma_read_letters_flag(s: Seq<char>, acc: u32, c: char)
    requires
        letter_flag(c) is Some,
        read_letters(s, acc) is Ok,
    ensures
        ({
            let flag = letter_flag(c).unwrap();
            let bits = read_letters(s, acc).unwrap();
            bits & flag == flag <==> (acc & flag == flag || s.contains(c))
        }),
    decreases s.len(),
{
    let flag = letter_flag(c).unwrap();
    if s.len() > 0 {
        let rest = s.drop_first();
        let bit = letter_flag(s[0]).unwrap();
        lemma_read_letters_flag(rest, acc | bit, c);
        assert((acc | bit) & flag == flag <==> (acc & flag == flag || bit == flag)) by (bit_vector)
            requires
                bit == 1 || bit == 2 || bit == 4 || bit == 8 || bit == 16 || bit == 32 || bit == 64
                    || bit == 512 || bit == 1024,
                flag == 1 || flag == 2 || flag == 4 || flag == 8 || flag == 16 || flag == 32
                    || flag == 64 || flag == 512 || flag == 1024,
        ;
        assert(bit == flag <==> s[0] == c);
        if rest.contains(c) {
            let i = choose|i: int| 0 <= i < rest.len() && rest[i] == c;
            assert(s[i + 1] == c);
        }
        if s.contains(c) && s[0] != c {
            let i = choose|i: int| 0 <= i < s.len() && s[i] == c;
            assert(rest[i - 1] == c);
        }
    } else {
        assert(!s.contains(c));
    }
}

/// Setting a lettered flag in a valid flag set leaves it valid.
pub proof fn lemma_set_keeps_valid(flags: CompileFlags, flag: u32)
    requires
        flags.is_valid(),
        CompileFlags(flag).is_valid(),
    ensures
        CompileFlags(flags.0 | flag).is_valid(),
{
    let bits = flags.0;
    assert((bits | flag) & !1663u32 == 0) by (bit_vector)
        requires
            bits & !1663u32 == 0,
            flag & !1663u32 == 0,
    ;
}

/// What a flag string means depends only on which letters stand in it, not
/// on their order nor on how often each stands there.
pub proof fn lemma_parse_depends_on_letters_only(s: Seq<char>, t: Seq<char>)
    requires
        forall|c: char| s.contains(c) <==> t.contains(c),
        read_letters(s, 0) is Ok,
    ensures
        read_letters(t, 0) == read_letters(s, 0),
{
    lemma_read_ok_iff_all_letters(s, 0);
    lemma_read_ok_iff_all_letters(t, 0);
    assert forall|i: int| 0 <= i < t.len() implies letter_flag(#[trigger] t[i]) is Some by {
        assert(t.contains(t[i]));
        assert(s.contains(t[i]));
        let j = choose|j: int| 0 <= j < s.len() && s[j] == t[i];
        assert(letter_flag(s[j]) is Some);
    }
    let a = read_letters(s, 0).unwrap();
    let b = read_letters(t, 0).unwrap();
    assert(0u32 & !1663u32 == 0) by (bit_vector);
    lemma_parsed_flags_valid(s, 0);
    lemma_parsed_flags_valid(t, 0);
    lemma_same_letters_same_flag(s, t, 'i');
    lemma_same_letters_same_flag(s, t, 'm');
    lemma_same_letters_same_flag(s, t, 's');
    lemma_same_letters_same_flag(s, t, 'H');
    lemma_same_letters_same_flag(s, t, 'V');
    lemma_same_letters_same_flag(s, t, '8');
    lemma_same_letters_same_flag(s, t, 'W');
    lemma_same_letters_same_flag(s, t, 'C');
    lemma_same_letters_same_flag(s, t, 'Q');
    assert(a == b) by (bit_vector)
        requires
            a & !1663u32 == 0,
            b & !1663u32 == 0,
            a & 1 == 1 <==> b & 1 == 1,
            a & 2 == 2 <==> b & 2 == 2,
            a & 4 == 4 <==> b & 4 == 4,
            a & 8 == 8 <==> b & 8 == 8,
            a & 16 == 16 <==> b & 16 == 16,
            a & 32 == 32 <==> b & 32 == 32,
            a & 64 == 64 <==> b & 64 == 64,
            a & 512 == 512 <==> b & 512 == 512,
            a & 1024 == 1024 <==> b & 1024 == 1024,
    ;
}

/// Two flag strings with the same letters agree on the flag of each letter.
proof fn lemma_same_letters_same_flag(s: Seq<char>, t: Seq<char>, c: char)
    requires
        letter_flag(c) is Some,
        s.contains(c) <==> t.contains(c),
        read_letters(s, 0) is Ok,
        read_letters(t, 0) is Ok,
    ensures
        ({
            let flag = letter_flag(c).unwrap();
            read_letters(s, 0).unwrap() & flag == flag <==> read_letters(t, 0).unwrap() & flag
                == flag
        }),
{
    lemma_read_letters_flag(s, 0, c);
    lemma_read_letters_flag(t, 0, c);
}

} // verus!
