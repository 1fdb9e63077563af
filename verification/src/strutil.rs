//! Small string-building helpers shared by the emitters.

use vstd::prelude::*;

verus! {

/// Relies on `String::push`: appends exactly one character at the end.
#[verifier::external_body]
pub fn push_char(s: &mut String, c: char)
    ensures
        final(s)@ == old(s)@.push(c),
{
    s.push(c);
}

/// The upper-case form of an ASCII letter; any other character is unchanged.
pub open spec fn spec_upper(c: char) -> char {
    if 'a' <= c && c <= 'z' {
        ((c as u8) - 32) as char
    } else {
        c
    }
}

/// Upper-cases one ASCII letter.
pub fn upper_ascii(c: char) -> (r: char)
    ensures
        r == spec_upper(c),
{
    if 'a' <= c && c <= 'z' {
        (((c as u32) - 32) as u8) as char
    } else {
        c
    }
}

/// The camel-case form of a lower-case snake-case identifier: underscores are
/// dropped and the letter that follows each underscore is upper-cased.
pub open spec fn spec_mixed_case(s: Seq<char>) -> Seq<char>
    decreases s.len(),
{
    if s.len() == 0 {
        Seq::empty()
    } else if s[0] == '_' {
        if s.len() >= 2 {
            seq![spec_upper(s[1])] + spec_mixed_case(s.skip(2))
        } else {
            Seq::empty()
        }
    } else {
        seq![s[0]] + spec_mixed_case(s.skip(1))
    }
}

/// Camel-cases a snake-case identifier, as the client-side operation names
/// require (`user_id` becomes `userId`).
pub fn mixed_case(s: &str) -> (r: String)
    ensures
        r@ == spec_mixed_case(s@),
{
    let n: usize = s.unicode_len();
    let mut out = String::new();
    let mut i: usize = 0;
    proof {
        assert(s@.skip(0) =~= s@);
        assert(out@ + spec_mixed_case(s@) =~= spec_mixed_case(s@));
    }
    while i < n
        invariant
            n == s@.len(),
            i <= n,
            out@ + spec_mixed_case(s@.skip(i as int)) == spec_mixed_case(s@),
        decreases n - i,
    {
        let c = s.get_char(i);
        if c == '_' {
            if i + 1 < n {
                let d = s.get_char(i + 1);
                push_char(&mut out, upper_ascii(d));
                proof {
                    assert(s@.skip(i as int).skip(2) =~= s@.skip(i + 2));
                }
                i = i + 2;
            } else {
                proof {
                    assert(s@.skip(i as int).len() == 1);
                }
                i = i + 1;
            }
        } else {
            push_char(&mut out, c);
            proof {
                assert(s@.skip(i as int).skip(1) =~= s@.skip(i + 1));
            }
            i = i + 1;
        }
    }
    proof {
        assert(s@.skip(n as int) =~= Seq::<char>::empty());
        assert(out@ + Seq::<char>::empty() =~= out@);
    }
    out
}

} // verus!
