use vstd::prelude::*;
use crate::chars::{str_to_chars, chars_to_string};

verus! {

/// Characters the OCR engine is known to emit as noise around subtitle
/// text: spaces, newlines, backticks and the Japanese corner brackets.
pub open spec fn is_noise(c: char) -> bool {
    c == ' ' || c == '\n' || c == '`' || c == '\u{300C}' || c == '\u{300D}'
}

/// The text with every noise character removed, order kept.
pub open spec fn strip_noise(s: Seq<char>) -> Seq<char>
    decreases s.len(),
{
    if s.len() == 0 {
        s
    } else {
        let rest = strip_noise(s.drop_last());
        if is_noise(s.last()) {
            rest
        } else {
            rest.push(s.last())
        }
    }
}

/// The trailing-character heuristic: when the next-to-last character is a
/// full-width period, the character after it is an OCR artifact and is
/// dropped.  Only applies to texts longer than three characters.
pub open spec fn drop_trailing_artifact(t: Seq<char>) -> Seq<char> {
    if t.len() > 3 && t[t.len() - 2] == '\u{3002}' {
        t.drop_last()
    } else {
        t
    }
}

/// What cleaning recognized text means: strip the noise characters, then
/// apply the trailing-character heuristic.
pub open spec fn clean_spec(s: Seq<char>) -> Seq<char> {
    drop_trailing_artifact(strip_noise(s))
}

/// Whether this character is OCR noise.
fn is_noise_char(c: char) -> (b: bool)
    ensures
        b == is_noise(c),
{
    c == ' ' || c == '\n' || c == '`' || c == '\u{300C}' || c == '\u{300D}'
}

/// Cleans raw OCR output: removes spaces, newlines, backticks and corner
/// brackets, and drops a trailing artifact character left after a
/// full-width period.
pub fn clean_ocr_text(s: &str) -> (r: String)
    ensures
        r@ == clean_spec(s@),
{
    let v = str_to_chars(s);
    let mut kept: Vec<char> = Vec::new();
    let mut i: usize = 0;
    while i < v.len()
        invariant
            i <= v@.len(),
            kept@ == strip_noise(v@.subrange(0, i as int)),
        decreases v@.len() - i,
    {
        let c = v[i];
        proof {
            assert(v@.subrange(0, (i + 1) as int).drop_last() =~= v@.subrange(0, i as int));
            assert(v@.subrange(0, (i + 1) as int).last() == v@[i as int]);
        }
        if !is_noise_char(c) {
            kept.push(c);
        }
        i = i + 1;
    }
    assert(v@.subrange(0, v@.len() as int) =~= v@);
    if kept.len() > 3 {
        let second_last = kept[kept.len() - 2];
        if second_last == '\u{3002}' {
            let ghost before = kept@;
            kept.pop();
            proof {
                assert(kept@ =~= before.drop_last());
            }
        }
    }
    chars_to_string(&kept)
}

/// No character of stripped text is noise.
pub proof fn lemma_strip_noise_clean(s: Seq<char>)
    ensures
        forall|i: int| 0 <= i < strip_noise(s).len() ==> !is_noise(#[trigger] strip_noise(s)[i]),
    decreases s.len(),
{
    if s.len() > 0 {
        lemma_strip_noise_clean(s.drop_last());
        let rest = strip_noise(s.drop_last());
        if !is_noise(s.last()) {
            assert(strip_noise(s) == rest.push(s.last()));
            assert forall|i: int| 0 <= i < strip_noise(s).len() implies !is_noise(
                strip_noise(s)[i],
            ) by {
                if i < rest.len() {
                    assert(strip_noise(s)[i] == rest[i]);
                } else {
                    assert(strip_noise(s)[i] == s.last());
                }
            }
        }
    }
}

/// Stripping leaves noise-free text unchanged.
pub proof fn lemma_strip_noise_identity(s: Seq<char>)
    requires
        forall|i: int| 0 <= i < s.len() ==> !is_noise(#[trigger] s[i]),
    ensures
        strip_noise(s) == s,
    decreases s.len(),
{
    if s.len() > 0 {
        lemma_strip_noise_identity(s.drop_last());
        assert(strip_noise(s.drop_last()).push(s.last()) =~= s);
    }
}

/// Cleaning is idempotent wherever the trailing-character heuristic does
/// not apply to the already-cleaned text: cleaned text holds no noise
/// characters, so a second pass changes nothing.  (On text whose cleaned
/// form still has a full-width period in next-to-last place, a second
/// pass would drop one character more, so that case is excluded here.)
pub proof fn lemma_clean_idempotent(s: Seq<char>)
    requires
        !(clean_spec(s).len() > 3 && clean_spec(s)[clean_spec(s).len() - 2] == '\u{3002}'),
    ensures
        clean_spec(clean_spec(s)) == clean_spec(s),
{
    let t = strip_noise(s);
    let c = clean_spec(s);
    lemma_strip_noise_clean(s);
    assert(forall|i: int| 0 <= i < c.len() ==> !is_noise(#[trigger] c[i])) by {
        if t.len() > 3 && t[t.len() - 2] == '\u{3002}' {
            assert(forall|i: int| 0 <= i < c.len() ==> c[i] == t[i]);
        }
    }
    lemma_strip_noise_identity(c);
}

} // verus!
