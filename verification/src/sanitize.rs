//! Removes terminal-escape hazards from untrusted text before it is logged
//! or used in role heuristics: all C0 control characters except `\t`, `\n`,
//! `\r` and all C1 control characters are neutralized (ESC is dropped
//! entirely; the rest become spaces).

use vstd::prelude::*;

verus! {

/// Whether a terminal may act on `c`: a C0 control other than tab, line feed
/// and carriage return, DEL, or a C1 control.
pub open spec fn is_hazard(c: char) -> bool {
    let v = c as u32;
    (v < 0x20 && c != '\t' && c != '\n' && c != '\r') || 0x7f <= v <= 0x9f
}

/// What stands in the sanitized text for one character.
pub open spec fn neutralized(c: char) -> Seq<char> {
    if c as u32 == 0x1b {
        Seq::empty()
    } else if is_hazard(c) {
        seq![' ']
    } else {
        seq![c]
    }
}

/// The sanitized form of a text.
pub open spec fn sanitized(s: Seq<char>) -> Seq<char>
    decreases s.len(),
{
    if s.len() == 0 {
        Seq::empty()
    } else {
        sanitized(s.drop_last()) + neutralized(s.last())
    }
}

/// Sanitizes terminal-unsafe control characters out of `input`.
#[must_use]
pub fn sanitize_terminal_text(input: &str) -> (r: String)
    ensures
        r@ == sanitized(input@),
{
    let mut out = String::new();
    for c in it: input.chars()
        invariant
            it.seq() == input@,
            out@ == sanitized(input@.take(it.index() as int)),
    {
        let ghost before = out@;
        let v: u32 = c as u32;
        if c == '\t' || c == '\n' || c == '\r' {
            out.push(c);
        } else if v == 0x1b {
            // OSC/CSI introducer: dropped entirely
        } else if v < 0x20 {
            out.push(' ');
        } else if 0x7f <= v && v <= 0x9f {
            out.push(' ');
        } else {
            out.push(c);
        }
        proof {
            let head = input@.take(it.index() as int + 1);
            assert(head.drop_last() =~= input@.take(it.index() as int));
            assert(head.last() == c);
            assert(out@ =~= before + neutralized(c));
        }
    }
    assert(input@.take(input@.len() as int) =~= input@);
    out
}

/// Whether a terminal can act on no character of `s`.
pub open spec fn is_clean(s: Seq<char>) -> bool {
    forall|i: int| 0 <= i < s.len() ==> !is_hazard(#[trigger] s[i])
}

/// No hazard survives sanitizing, and nothing is added.
pub proof fn law_sanitized_is_clean(s: Seq<char>)
    ensures
        is_clean(sanitized(s)),
        sanitized(s).len() <= s.len(),
    decreases s.len(),
{
    if s.len() > 0 {
        law_sanitized_is_clean(s.drop_last());
        let head = sanitized(s.drop_last());
        let tail = neutralized(s.last());
        assert forall|i: int| 0 <= i < (head + tail).len() implies !is_hazard(
            #[trigger] (head + tail)[i],
        ) by {
            if i < head.len() {
                assert((head + tail)[i] == head[i]);
            } else {
                assert((head + tail)[i] == tail[i - head.len()]);
            }
        }
    }
}

/// Clean text passes through unchanged.
pub proof fn law_clean_text_is_unchanged(s: Seq<char>)
    requires
        is_clean(s),
    ensures
        sanitized(s) == s,
    decreases s.len(),
{
    if s.len() > 0 {
        let head = s.drop_last();
        assert forall|i: int| 0 <= i < head.len() implies !is_hazard(#[trigger] head[i]) by {
            assert(head[i] == s[i]);
        }
        law_clean_text_is_unchanged(head);
        assert(!is_hazard(s[s.len() - 1]));
        assert(sanitized(s) =~= s);
    } else {
        assert(sanitized(s) =~= s);
    }
}

/// Sanitizing twice is sanitizing once.
pub proof fn law_sanitizing_is_idempotent(s: Seq<char>)
    ensures
        sanitized(sanitized(s)) == sanitized(s),
{
    law_sanitized_is_clean(s);
    law_clean_text_is_unchanged(sanitized(s));
}

/// Sanitizing drops ESC, turns every other control character but tab, line
/// feed and carriage return into a space, and leaves the rest in place: a
/// text grows with each character by exactly that.
pub proof fn law_sanitizing_goes_by_the_character(s: Seq<char>, c: char)
    ensures
        sanitized(Seq::empty()).len() == 0,
        ({
            let v = c as u32;
            sanitized(s.push(c)) == if v == 0x1b {
                sanitized(s)
            } else if (v < 0x20 && v != 0x09 && v != 0x0a && v != 0x0d) || (0x7f <= v <= 0x9f) {
                sanitized(s).push(' ')
            } else {
                sanitized(s).push(c)
            }
        }),
{
    assert(s.push(c).drop_last() =~= s);
    assert(s.push(c).last() == c);
    assert(sanitized(s) + neutralized(c) =~= if c as u32 == 0x1b {
        sanitized(s)
    } else if is_hazard(c) {
        sanitized(s).push(' ')
    } else {
        sanitized(s).push(c)
    });
}

}
