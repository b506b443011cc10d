use vstd::prelude::*;
use crate::chars::{
    occurs_at, find_from, find_sub, str_to_chars, chars_to_string, subvec, append_chars,
};

verus! {

// ---------------------------------------------------------------------
// What extraction means.
//
// A translation response carries its result as list items inside one
// container, `<ul id="translateResult"> ... /ul>`.  Extraction takes the
// first such container (from the first occurrence of the opening marker
// to the first occurrence of the closing marker after it), walks its
// `<li ...>` elements, takes each element's inner text with tags
// stripped and the common character entities decoded, joins the texts
// with newlines, and trims whitespace off the two ends of the joined
// result only.
// ---------------------------------------------------------------------
/// The literal that opens the translation-result container.
pub open spec fn ul_open_marker() -> Seq<char> {
    "<ul id=\"translateResult\""@
}

/// The literal that closes the container (the tail of `</ul>`).
pub open spec fn ul_close_marker() -> Seq<char> {
    "/ul>"@
}

/// Start (inclusive) and end (exclusive) of the container in `html`:
/// the first opening marker, then the first closing marker after it.
/// `None` when either marker is missing.
pub open spec fn container_bounds(html: Seq<char>) -> Option<(int, int)> {
    match find_from(html, ul_open_marker(), 0) {
        None => None,
        Some(i) => match find_from(html, ul_close_marker(), i + ul_open_marker().len() as int) {
            None => None,
            Some(j) => Some((i, j + ul_close_marker().len() as int)),
        },
    }
}

/// The container fragment of `html`, markers included.
pub open spec fn container_of(html: Seq<char>) -> Option<Seq<char>> {
    match container_bounds(html) {
        None => None,
        Some(b) => Some(html.subrange(b.0, b.1)),
    }
}

/// Whitespace as it may stand inside a tag, after the tag name.
pub open spec fn is_tag_space(c: char) -> bool {
    c == ' ' || c == '\t' || c == '\n' || c == '\r'
}

/// A list-item element opens at `i`: `<li` followed by `>` or whitespace
/// (so that tags such as `<link>` do not count).
pub open spec fn li_open_at(s: Seq<char>, i: int) -> bool {
    &&& 0 <= i
    &&& i + 4 <= s.len()
    &&& s[i] == '<'
    &&& s[i + 1] == 'l'
    &&& s[i + 2] == 'i'
    &&& (s[i + 3] == '>' || is_tag_space(s[i + 3]))
}

/// A list-item element closes at `i`: `</li` followed by `>` or
/// whitespace.
pub open spec fn li_close_at(s: Seq<char>, i: int) -> bool {
    &&& 0 <= i
    &&& i + 5 <= s.len()
    &&& s[i] == '<'
    &&& s[i + 1] == '/'
    &&& s[i + 2] == 'l'
    &&& s[i + 3] == 'i'
    &&& (s[i + 4] == '>' || is_tag_space(s[i + 4]))
}

/// Where the list-item scanner stands: before an item, inside an item's
/// opening tag, or inside an item's content.
pub enum ScanMode {
    Seeking,
    OpenTag,
    Content,
}

/// One pass over `s` from position `p`, collecting the raw content of
/// every list item.  In `Seeking`, an opening `<li` starts an item; in
/// `OpenTag`, the first `>` ends the opening tag; in `Content`, a
/// closing `</li` finishes the item, and the content of an item still
/// open at the end of the fragment runs to the end.
pub open spec fn items_sm(
    s: Seq<char>,
    p: int,
    mode: ScanMode,
    cur: Seq<char>,
    acc: Seq<Seq<char>>,
) -> Seq<Seq<char>>
    decreases s.len() - p,
{
    if p < 0 || p >= s.len() {
        match mode {
            ScanMode::Content => acc.push(cur),
            _ => acc,
        }
    } else {
        match mode {
            ScanMode::Seeking => if li_open_at(s, p) {
                items_sm(s, p + 3, ScanMode::OpenTag, cur, acc)
            } else {
                items_sm(s, p + 1, ScanMode::Seeking, cur, acc)
            },
            ScanMode::OpenTag => if s[p] == '>' {
                items_sm(s, p + 1, ScanMode::Content, Seq::empty(), acc)
            } else {
                items_sm(s, p + 1, ScanMode::OpenTag, cur, acc)
            },
            ScanMode::Content => if li_close_at(s, p) {
                items_sm(s, p + 1, ScanMode::Seeking, Seq::empty(), acc.push(cur))
            } else {
                items_sm(s, p + 1, ScanMode::Content, cur.push(s[p]), acc)
            },
        }
    }
}

/// The raw (undecoded, tags kept) content of every list item of `s`.
pub open spec fn raw_items(s: Seq<char>) -> Seq<Seq<char>> {
    items_sm(s, 0, ScanMode::Seeking, Seq::empty(), Seq::empty())
}

/// One step of tag stripping: characters from a `<` to the next `>` are
/// dropped (to the end of the text when no `>` follows); everything else
/// is kept.
pub open spec fn strip_rec(s: Seq<char>, p: int, in_tag: bool, acc: Seq<char>) -> Seq<char>
    decreases s.len() - p,
{
    if p < 0 || p >= s.len() {
        acc
    } else if in_tag {
        strip_rec(s, p + 1, s[p] != '>', acc)
    } else if s[p] == '<' {
        strip_rec(s, p + 1, true, acc)
    } else {
        strip_rec(s, p + 1, false, acc.push(s[p]))
    }
}

/// The text with every `<...>` span removed.
pub open spec fn strip_tags(s: Seq<char>) -> Seq<char> {
    strip_rec(s, 0, false, Seq::empty())
}

/// `&amp;` stands at `i`.
pub open spec fn amp_at(s: Seq<char>, i: int) -> bool {
    &&& 0 <= i
    &&& i + 5 <= s.len()
    &&& s[i] == '&'
    &&& s[i + 1] == 'a'
    &&& s[i + 2] == 'm'
    &&& s[i + 3] == 'p'
    &&& s[i + 4] == ';'
}

/// `&lt;` stands at `i`.
pub open spec fn lt_at(s: Seq<char>, i: int) -> bool {
    &&& 0 <= i
    &&& i + 4 <= s.len()
    &&& s[i] == '&'
    &&& s[i + 1] == 'l'
    &&& s[i + 2] == 't'
    &&& s[i + 3] == ';'
}

/// `&gt;` stands at `i`.
pub open spec fn gt_at(s: Seq<char>, i: int) -> bool {
    &&& 0 <= i
    &&& i + 4 <= s.len()
    &&& s[i] == '&'
    &&& s[i + 1] == 'g'
    &&& s[i + 2] == 't'
    &&& s[i + 3] == ';'
}

/// `&quot;` stands at `i`.
pub open spec fn quot_at(s: Seq<char>, i: int) -> bool {
    &&& 0 <= i
    &&& i + 6 <= s.len()
    &&& s[i] == '&'
    &&& s[i + 1] == 'q'
    &&& s[i + 2] == 'u'
    &&& s[i + 3] == 'o'
    &&& s[i + 4] == 't'
    &&& s[i + 5] == ';'
}

/// `&apos;` stands at `i`.
pub open spec fn apos_at(s: Seq<char>, i: int) -> bool {
    &&& 0 <= i
    &&& i + 6 <= s.len()
    &&& s[i] == '&'
    &&& s[i + 1] == 'a'
    &&& s[i + 2] == 'p'
    &&& s[i + 3] == 'o'
    &&& s[i + 4] == 's'
    &&& s[i + 5] == ';'
}

/// `&#39;` (the numeric apostrophe) stands at `i`.
pub open spec fn num_apos_at(s: Seq<char>, i: int) -> bool {
    &&& 0 <= i
    &&& i + 5 <= s.len()
    &&& s[i] == '&'
    &&& s[i + 1] == '#'
    &&& s[i + 2] == '3'
    &&& s[i + 3] == '9'
    &&& s[i + 4] == ';'
}

/// One step of entity decoding over the common named and numeric
/// entities; anything else is kept as it stands.
pub open spec fn decode_rec(s: Seq<char>, p: int, acc: Seq<char>) -> Seq<char>
    decreases s.len() - p,
{
    if p < 0 || p >= s.len() {
        acc
    } else if amp_at(s, p) {
        decode_rec(s, p + 5, acc.push('&'))
    } else if lt_at(s, p) {
        decode_rec(s, p + 4, acc.push('<'))
    } else if gt_at(s, p) {
        decode_rec(s, p + 4, acc.push('>'))
    } else if quot_at(s, p) {
        decode_rec(s, p + 6, acc.push('"'))
    } else if apos_at(s, p) {
        decode_rec(s, p + 6, acc.push('\''))
    } else if num_apos_at(s, p) {
        decode_rec(s, p + 5, acc.push('\''))
    } else {
        decode_rec(s, p + 1, acc.push(s[p]))
    }
}

/// The text with the common character entities decoded.
pub open spec fn decode_entities(s: Seq<char>) -> Seq<char> {
    decode_rec(s, 0, Seq::empty())
}

/// The inner text of one raw item: tags stripped, then entities decoded.
pub open spec fn item_text(raw: Seq<char>) -> Seq<char> {
    decode_entities(strip_tags(raw))
}

/// The inner texts of every list item of the fragment.
pub open spec fn item_texts(s: Seq<char>) -> Seq<Seq<char>> {
    raw_items(s).map_values(|raw: Seq<char>| item_text(raw))
}

/// The lines joined with single newlines, in order.
pub open spec fn join_lines(items: Seq<Seq<char>>) -> Seq<char>
    decreases items.len(),
{
    if items.len() == 0 {
        Seq::empty()
    } else if items.len() == 1 {
        items[0]
    } else {
        items[0] + seq!['\n'] + join_lines(items.drop_first())
    }
}

/// A character the final trim removes: the Unicode whitespace set.
pub open spec fn is_trim_space(c: char) -> bool {
    ||| c == '\u{0009}'
    ||| c == '\u{000A}'
    ||| c == '\u{000B}'
    ||| c == '\u{000C}'
    ||| c == '\u{000D}'
    ||| c == '\u{0020}'
    ||| c == '\u{0085}'
    ||| c == '\u{00A0}'
    ||| c == '\u{1680}'
    ||| c == '\u{2000}'
    ||| c == '\u{2001}'
    ||| c == '\u{2002}'
    ||| c == '\u{2003}'
    ||| c == '\u{2004}'
    ||| c == '\u{2005}'
    ||| c == '\u{2006}'
    ||| c == '\u{2007}'
    ||| c == '\u{2008}'
    ||| c == '\u{2009}'
    ||| c == '\u{200A}'
    ||| c == '\u{2028}'
    ||| c == '\u{2029}'
    ||| c == '\u{202F}'
    ||| c == '\u{205F}'
    ||| c == '\u{3000}'
}

/// The text without its leading whitespace.
pub open spec fn trim_front(s: Seq<char>) -> Seq<char>
    decreases s.len(),
{
    if s.len() > 0 && is_trim_space(s[0]) {
        trim_front(s.drop_first())
    } else {
        s
    }
}

/// The text without its trailing whitespace.
pub open spec fn trim_back(s: Seq<char>) -> Seq<char>
    decreases s.len(),
{
    if s.len() > 0 && is_trim_space(s.last()) {
        trim_back(s.drop_last())
    } else {
        s
    }
}

/// The text without leading and trailing whitespace.
pub open spec fn trim_spaces(s: Seq<char>) -> Seq<char> {
    trim_back(trim_front(s))
}

/// What the extractor returns on `html`: `None` when no container is
/// there, otherwise the items' inner texts joined with newlines and
/// trimmed at the two ends.
pub open spec fn extract_translation(html: Seq<char>) -> Option<Seq<char>> {
    match container_of(html) {
        None => None,
        Some(frag) => Some(trim_spaces(join_lines(item_texts(frag)))),
    }
}

// ---------------------------------------------------------------------
// The extractor itself, each pass verified against the spec above.
// ---------------------------------------------------------------------
/// Whether a tag-space character stands here.
fn is_tag_space_char(c: char) -> (b: bool)
    ensures
        b == is_tag_space(c),
{
    c == ' ' || c == '\t' || c == '\n' || c == '\r'
}

/// Whether a list item opens at `p`.
fn li_open_here(v: &Vec<char>, p: usize) -> (b: bool)
    ensures
        b == li_open_at(v@, p as int),
{
    if v.len() < 4 || p > v.len() - 4 {
        return false;
    }
    v[p] == '<' && v[p + 1] == 'l' && v[p + 2] == 'i' && (v[p + 3] == '>' || is_tag_space_char(
        v[p + 3],
    ))
}

/// Whether a list item closes at `p`.
fn li_close_here(v: &Vec<char>, p: usize) -> (b: bool)
    ensures
        b == li_close_at(v@, p as int),
{
    if v.len() < 5 || p > v.len() - 5 {
        return false;
    }
    v[p] == '<' && v[p + 1] == '/' && v[p + 2] == 'l' && v[p + 3] == 'i' && (v[p + 4] == '>'
        || is_tag_space_char(v[p + 4]))
}

/// The raw content of every list item of the fragment.
fn collect_raw_items(f: &Vec<char>) -> (items: Vec<Vec<char>>)
    ensures
        items.deep_view() == raw_items(f@),
{
    let n = f.len();
    let mut p: usize = 0;
    let mut mode = ScanMode::Seeking;
    let mut cur: Vec<char> = Vec::new();
    let mut acc: Vec<Vec<char>> = Vec::new();
    proof {
        assert(acc.deep_view() =~~= Seq::<Seq<char>>::empty());
    }
    while p < n
        invariant
            n == f@.len(),
            p <= n,
            raw_items(f@) == items_sm(f@, p as int, mode, cur@, acc.deep_view()),
        decreases n - p,
    {
        match mode {
            ScanMode::Seeking => {
                if li_open_here(f, p) {
                    p = p + 3;
                    mode = ScanMode::OpenTag;
                } else {
                    p = p + 1;
                }
            },
            ScanMode::OpenTag => {
                if f[p] == '>' {
                    mode = ScanMode::Content;
                    cur = Vec::new();
                } else {
                }
                p = p + 1;
            },
            ScanMode::Content => {
                if li_close_here(f, p) {
                    let ghost acc0 = acc.deep_view();
                    let ghost cur0 = cur@;
                    acc.push(cur);
                    cur = Vec::new();
                    mode = ScanMode::Seeking;
                    p = p + 1;
                    proof {
                        assert(acc.deep_view() =~~= acc0.push(cur0));
                    }
                } else {
                    let c = f[p];
                    cur.push(c);
                    p = p + 1;
                }
            },
        }
    }
    if let ScanMode::Content = mode {
        let ghost acc0 = acc.deep_view();
        let ghost cur0 = cur@;
        acc.push(cur);
        proof {
            assert(acc.deep_view() =~~= acc0.push(cur0));
        }
    }
    acc
}

/// The fragment with every tag span removed.
fn strip_tags_vec(v: &Vec<char>) -> (r: Vec<char>)
    ensures
        r@ == strip_tags(v@),
{
    let n = v.len();
    let mut p: usize = 0;
    let mut in_tag = false;
    let mut acc: Vec<char> = Vec::new();
    while p < n
        invariant
            n == v@.len(),
            p <= n,
            strip_tags(v@) == strip_rec(v@, p as int, in_tag, acc@),
        decreases n - p,
    {
        let c = v[p];
        if in_tag {
            in_tag = c != '>';
        } else if c == '<' {
            in_tag = true;
        } else {
            acc.push(c);
        }
        p = p + 1;
    }
    acc
}

/// Whether the named or numeric entity of the given length stands at
/// `p`; one checker per entity.
fn amp_here(v: &Vec<char>, p: usize) -> (b: bool)
    ensures
        b == amp_at(v@, p as int),
{
    if v.len() < 5 || p > v.len() - 5 {
        return false;
    }
    v[p] == '&' && v[p + 1] == 'a' && v[p + 2] == 'm' && v[p + 3] == 'p' && v[p + 4] == ';'
}

fn lt_here(v: &Vec<char>, p: usize) -> (b: bool)
    ensures
        b == lt_at(v@, p as int),
{
    if v.len() < 4 || p > v.len() - 4 {
        return false;
    }
    v[p] == '&' && v[p + 1] == 'l' && v[p + 2] == 't' && v[p + 3] == ';'
}

fn gt_here(v: &Vec<char>, p: usize) -> (b: bool)
    ensures
        b == gt_at(v@, p as int),
{
    if v.len() < 4 || p > v.len() - 4 {
        return false;
    }
    v[p] == '&' && v[p + 1] == 'g' && v[p + 2] == 't' && v[p + 3] == ';'
}

fn quot_here(v: &Vec<char>, p: usize) -> (b: bool)
    ensures
        b == quot_at(v@, p as int),
{
    if v.len() < 6 || p > v.len() - 6 {
        return false;
    }
    v[p] == '&' && v[p + 1] == 'q' && v[p + 2] == 'u' && v[p + 3] == 'o' && v[p + 4] == 't' && v[p
        + 5] == ';'
}

fn apos_here(v: &Vec<char>, p: usize) -> (b: bool)
    ensures
        b == apos_at(v@, p as int),
{
    if v.len() < 6 || p > v.len() - 6 {
        return false;
    }
    v[p] == '&' && v[p + 1] == 'a' && v[p + 2] == 'p' && v[p + 3] == 'o' && v[p + 4] == 's' && v[p
        + 5] == ';'
}

fn num_apos_here(v: &Vec<char>, p: usize) -> (b: bool)
    ensures
        b == num_apos_at(v@, p as int),
{
    if v.len() < 5 || p > v.len() - 5 {
        return false;
    }
    v[p] == '&' && v[p + 1] == '#' && v[p + 2] == '3' && v[p + 3] == '9' && v[p + 4] == ';'
}

/// The text with the common character entities decoded.
fn decode_entities_vec(v: &Vec<char>) -> (r: Vec<char>)
    ensures
        r@ == decode_entities(v@),
{
    let n = v.len();
    let mut p: usize = 0;
    let mut acc: Vec<char> = Vec::new();
    while p < n
        invariant
            n == v@.len(),
            p <= n,
            decode_entities(v@) == decode_rec(v@, p as int, acc@),
        decreases n - p,
    {
        if amp_here(v, p) {
            acc.push('&');
            p = p + 5;
        } else if lt_here(v, p) {
            acc.push('<');
            p = p + 4;
        } else if gt_here(v, p) {
            acc.push('>');
            p = p + 4;
        } else if quot_here(v, p) {
            acc.push('"');
            p = p + 6;
        } else if apos_here(v, p) {
            acc.push('\'');
            p = p + 6;
        } else if num_apos_here(v, p) {
            acc.push('\'');
            p = p + 5;
        } else {
            let c = v[p];
            acc.push(c);
            p = p + 1;
        }
    }
    acc
}

/// The items joined with single newlines.
fn join_items(items: &Vec<Vec<char>>) -> (r: Vec<char>)
    ensures
        r@ == join_lines(items.deep_view()),
{
    let ghost d = items.deep_view();
    let n = items.len();
    let mut r: Vec<char> = Vec::new();
    if n == 0 {
        return r;
    }
    append_chars(&mut r, &items[0]);
    let mut i: usize = 1;
    proof {
        assert(d.len() == n);
    }
    while i < n
        invariant
            d == items.deep_view(),
            d.len() == n,
            1 <= i <= n,
            join_lines(d) == r@ + (if i < n {
                seq!['\n'] + join_lines(d.subrange(i as int, n as int))
            } else {
                Seq::<char>::empty()
            }),
        decreases n - i,
    {
        r.push('\n');
        append_chars(&mut r, &items[i]);
        proof {
            let suf = d.subrange(i as int, n as int);
            assert(suf[0] == d[i as int]);
            if suf.len() == 1 {
                assert(join_lines(suf) == suf[0]);
                assert(r@ == join_lines(d));
            } else {
                assert(suf.drop_first() =~= d.subrange(i + 1, n as int));
                assert(join_lines(suf) == suf[0] + seq!['\n'] + join_lines(suf.drop_first()));
            }
        }
        i = i + 1;
    }
    proof {
        assert(join_lines(d) == r@);
    }
    r
}

/// Whether the final trim removes this character.
fn is_trim_space_char(c: char) -> (b: bool)
    ensures
        b == is_trim_space(c),
{
    c == '\u{0009}' || c == '\u{000A}' || c == '\u{000B}' || c == '\u{000C}' || c == '\u{000D}'
        || c == '\u{0020}' || c == '\u{0085}' || c == '\u{00A0}' || c == '\u{1680}'
        || c == '\u{2000}' || c == '\u{2001}' || c == '\u{2002}' || c == '\u{2003}'
        || c == '\u{2004}' || c == '\u{2005}' || c == '\u{2006}' || c == '\u{2007}'
        || c == '\u{2008}' || c == '\u{2009}' || c == '\u{200A}' || c == '\u{2028}'
        || c == '\u{2029}' || c == '\u{202F}' || c == '\u{205F}' || c == '\u{3000}'
}

/// Index of the first non-whitespace character, or the length when the
/// whole text is whitespace.
fn first_non_space(v: &Vec<char>) -> (a: usize)
    ensures
        a <= v@.len(),
        forall|k: int| 0 <= k < a ==> is_trim_space(v@[k]),
        a < v@.len() ==> !is_trim_space(v@[a as int]),
{
    let n = v.len();
    let mut a: usize = 0;
    while a < n
        invariant
            n == v@.len(),
            a <= n,
            forall|k: int| 0 <= k < a ==> is_trim_space(v@[k]),
        decreases n - a,
    {
        if !is_trim_space_char(v[a]) {
            return a;
        }
        a = a + 1;
    }
    a
}

/// End (exclusive) of the last non-whitespace character at or after `a`,
/// or `a` when everything from `a` on is whitespace.
fn last_non_space_from(v: &Vec<char>, a: usize) -> (b: usize)
    requires
        a <= v@.len(),
    ensures
        a <= b <= v@.len(),
        forall|k: int| b <= k < v@.len() ==> is_trim_space(v@[k]),
        b > a ==> !is_trim_space(v@[b - 1]),
{
    let n = v.len();
    let mut b: usize = n;
    while b > a
        invariant
            n == v@.len(),
            a <= b <= n,
            forall|k: int| b <= k < n ==> is_trim_space(v@[k]),
        decreases b,
    {
        if !is_trim_space_char(v[b - 1]) {
            return b;
        }
        b = b - 1;
    }
    b
}

/// When everything before `a` is whitespace and `a` is not, trimming
/// the front keeps exactly the text from `a` on.
proof fn lemma_trim_front_at(s: Seq<char>, a: int)
    requires
        0 <= a <= s.len(),
        forall|k: int| 0 <= k < a ==> is_trim_space(s[k]),
        a < s.len() ==> !is_trim_space(s[a]),
    ensures
        trim_front(s) == s.subrange(a, s.len() as int),
    decreases a,
{
    if a == 0 {
        assert(s.subrange(0, s.len() as int) =~= s);
    } else {
        assert(is_trim_space(s[0]));
        let t = s.drop_first();
        lemma_trim_front_at(t, a - 1);
        assert(t.subrange(a - 1, t.len() as int) =~= s.subrange(a, s.len() as int));
    }
}

/// When everything from `b` on is whitespace and the character before
/// `b` is not, trimming the back keeps exactly the text before `b`.
proof fn lemma_trim_back_at(s: Seq<char>, b: int)
    requires
        0 <= b <= s.len(),
        forall|k: int| b <= k < s.len() ==> is_trim_space(s[k]),
        b > 0 ==> !is_trim_space(s[b - 1]),
    ensures
        trim_back(s) == s.subrange(0, b),
    decreases s.len() - b,
{
    if b == s.len() {
        assert(s.subrange(0, s.len() as int) =~= s);
    } else {
        assert(is_trim_space(s.last()));
        let t = s.drop_last();
        lemma_trim_back_at(t, b);
        assert(t.subrange(0, b) =~= s.subrange(0, b));
    }
}

/// The text without leading and trailing whitespace.
fn trim_vec(v: &Vec<char>) -> (r: Vec<char>)
    ensures
        r@ == trim_spaces(v@),
{
    let n = v.len();
    let a = first_non_space(v);
    let b = last_non_space_from(v, a);
    let r = subvec(v, a, b);
    proof {
        lemma_trim_front_at(v@, a as int);
        let t = v@.subrange(a as int, n as int);
        assert forall|k: int| b - a <= k < t.len() implies is_trim_space(t[k]) by {
            assert(t[k] == v@[a + k]);
        }
        if b > a {
            assert(t[b - a - 1] == v@[b - 1]);
        }
        lemma_trim_back_at(t, b - a);
        assert(t.subrange(0, b - a) =~= v@.subrange(a as int, b as int));
    }
    r
}

/// Extracts the translated text from a translation page's HTML: the
/// inner texts of the result container's list items, joined with
/// newlines and trimmed, or `None` when the page holds no such
/// container.
pub fn find_translated_from_html(html: &str) -> (r: Option<String>)
    ensures
        r is Some <==> extract_translation(html@) is Some,
        r matches Some(s) ==> s@ == extract_translation(html@)->0,
{
    let hv = str_to_chars(html);
    let hn = hv.len();
    let open_marker = str_to_chars("<ul id=\"translateResult\"");
    let close_marker = str_to_chars("/ul>");
    proof {
        assert(open_marker@ == ul_open_marker());
        assert(close_marker@ == ul_close_marker());
    }
    let start = match find_sub(&hv, &open_marker, 0) {
        Some(i) => i,
        None => {
            return None;
        },
    };
    proof {
        assert(start + open_marker@.len() <= hn);
    }
    let from2 = start + open_marker.len();
    let end = match find_sub(&hv, &close_marker, from2) {
        Some(j) => {
            proof {
                assert(j + close_marker@.len() <= hn);
            }
            j + close_marker.len()
        },
        None => {
            return None;
        },
    };
    let frag = subvec(&hv, start, end);
    proof {
        assert(container_of(html@) == Some(frag@));
    }
    let items = collect_raw_items(&frag);
    let mut texts: Vec<Vec<char>> = Vec::new();
    proof {
        assert(texts.deep_view() =~~= items.deep_view().subrange(0, 0).map_values(
            |raw: Seq<char>| item_text(raw),
        ));
    }
    let mut i: usize = 0;
    while i < items.len()
        invariant
            i <= items@.len(),
            texts.deep_view() == items.deep_view().subrange(0, i as int).map_values(
                |raw: Seq<char>| item_text(raw),
            ),
        decreases items@.len() - i,
    {
        let stripped = strip_tags_vec(&items[i]);
        let decoded = decode_entities_vec(&stripped);
        let ghost texts0 = texts.deep_view();
        texts.push(decoded);
        proof {
            let dv = items.deep_view();
            let rhs = dv.subrange(0, i + 1).map_values(|raw: Seq<char>| item_text(raw));
            assert(dv[i as int] =~= items@[i as int]@);
            assert(item_text(dv[i as int]) == decoded@);
            assert(texts0.len() == i);
            assert(texts@.len() == i + 1);
            assert(texts.deep_view().len() == i + 1);
            assert forall|k: int| 0 <= k < i + 1 implies texts.deep_view()[k] =~~= rhs[k] by {
                assert(rhs[k] == item_text(dv[k]));
                if k < i {
                    assert(texts.deep_view()[k] == texts@[k].deep_view());
                    assert(texts.deep_view()[k] == texts0[k]);
                    assert(texts0[k] == item_text(dv[k]));
                } else {
                    assert(texts.deep_view()[k] == decoded.deep_view());
                    assert(decoded.deep_view() =~~= decoded@);
                }
            }
            assert(texts.deep_view() =~~= rhs);
        }
        i = i + 1;
    }
    proof {
        assert(items.deep_view().subrange(0, items.deep_view().len() as int) =~= items.deep_view());
        assert(texts.deep_view() == item_texts(frag@));
    }
    let joined = join_items(&texts);
    let trimmed = trim_vec(&joined);
    let s = chars_to_string(&trimmed);
    Some(s)
}

/// Interprets a translation request's outcome: `response` is the HTML
/// body the request produced, or `None` where the request itself
/// failed.  A failed request and a response without the result
/// container both come out as `None`; anything else is the extracted
/// translation.
pub fn translate(response: Option<&str>) -> (r: Option<String>)
    ensures
        match response {
            None => r is None,
            Some(h) => {
                &&& r is Some <==> extract_translation(h@) is Some
                &&& r matches Some(s) ==> s@ == extract_translation(h@)->0
            },
        },
{
    match response {
        None => None,
        Some(h) => find_translated_from_html(h),
    }
}

} // verus!
