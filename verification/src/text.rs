//! Character-level text handling shared by the configuration sanitizers.
use vstd::prelude::*;

verus! {

/// The Unicode `White_Space` property (PropList.txt), which is what
/// `str::trim` strips from both ends of a string.
pub open spec fn is_white_space(c: char) -> bool {
    let v = c as u32;
    ||| 0x9 <= v <= 0xD
    ||| v == 0x20
    ||| v == 0x85
    ||| v == 0xA0
    ||| v == 0x1680
    ||| 0x2000 <= v <= 0x200A
    ||| v == 0x2028
    ||| v == 0x2029
    ||| v == 0x202F
    ||| v == 0x205F
    ||| v == 0x3000
}

/// The Unicode general category `Cc` (control codes).
pub open spec fn is_control_char(c: char) -> bool {
    let v = c as u32;
    v <= 0x1F || (0x7F <= v && v <= 0x9F)
}

/// `s` without its leading white space.
pub open spec fn trim_start(s: Seq<char>) -> Seq<char>
    decreases s.len(),
{
    if s.len() > 0 && is_white_space(s[0]) {
        trim_start(s.drop_first())
    } else {
        s
    }
}

/// `s` without its trailing white space.
pub open spec fn trim_end(s: Seq<char>) -> Seq<char>
    decreases s.len(),
{
    if s.len() > 0 && is_white_space(s.last()) {
        trim_end(s.drop_last())
    } else {
        s
    }
}

/// `s` without white space at either end.
pub open spec fn trimmed(s: Seq<char>) -> Seq<char> {
    trim_end(trim_start(s))
}

/// The first `n` items of `s`, or all of them when there are fewer.
pub open spec fn at_most<A>(s: Seq<A>, n: nat) -> Seq<A> {
    if s.len() <= n {
        s
    } else {
        s.take(n as int)
    }
}

/// `s` with every control character removed.
pub open spec fn drop_controls(s: Seq<char>) -> Seq<char> {
    s.filter_map(|c: char| if is_control_char(c) { None } else { Some(c) })
}

/// Trimmed, without control characters, and cut to `max_chars` characters.
pub open spec fn clean_text_spec(s: Seq<char>, max_chars: nat) -> Seq<char> {
    at_most(drop_controls(trimmed(s)), max_chars)
}

/// Whether `pattern` occurs as a contiguous run inside `s`.
pub open spec fn contains_run(s: Seq<char>, pattern: Seq<char>) -> bool {
    exists|i: int| 0 <= i && i + pattern.len() <= s.len() && #[trigger] s.subrange(i, i + pattern.len()) == pattern
}

/// Number of bytes of the UTF-8 encoding of `s`.
pub open spec fn utf8_len(s: Seq<char>) -> nat {
    vstd::utf8::encode_utf8(s).len()
}

/// `str::trim`: the slice without leading and trailing `White_Space`
/// characters.
#[verifier::external_body]
pub(crate) fn trim(s: &str) -> (r: &str)
    ensures
        r@ == trimmed(s@),
{
    s.trim()
}

/// Whether `c` is a control character (general category `Cc`), as
/// `char::is_control` decides it: U+0000 to U+001F and U+007F to U+009F.
pub(crate) fn char_is_control(c: char) -> (r: bool)
    ensures
        r == is_control_char(c),
{
    let v = c as u32;
    v <= 0x1F || (0x7F <= v && v <= 0x9F)
}

/// `String::push`: appends one character.
#[verifier::external_body]
pub(crate) fn push_char(s: &mut String, c: char)
    ensures
        final(s)@ == old(s)@.push(c),
{
    s.push(c)
}

/// The characters of `s`, in order.
pub fn chars_of(s: &str) -> (v: Vec<char>)
    ensures
        v@ == s@,
{
    let n = s.unicode_len();
    let mut v: Vec<char> = Vec::new();
    let mut i: usize = 0;
    while i < n
        invariant
            n == s@.len(),
            i <= n,
            v@ == s@.take(i as int),
        decreases n - i,
    {
        let c = s.get_char(i);
        v.push(c);
        i = i + 1;
        assert(v@ =~= s@.take(i as int));
    }
    assert(v@ =~= s@);
    v
}

/// Whether two texts hold the same characters.
pub fn same_text(a: &str, b: &str) -> (r: bool)
    ensures
        r == (a@ == b@),
{
    let x = chars_of(a);
    let y = chars_of(b);
    if x.len() != y.len() {
        return false;
    }
    let mut i: usize = 0;
    while i < x.len()
        invariant
            x@ == a@,
            y@ == b@,
            x.len() == y.len(),
            i <= x.len(),
            forall|j: int| 0 <= j < i ==> x@[j] == y@[j],
        decreases x.len() - i,
    {
        if x[i] != y[i] {
            return false;
        }
        i = i + 1;
    }
    assert(a@ =~= b@);
    true
}

/// The text of `chars`.
pub fn text_of(chars: &Vec<char>) -> (r: String)
    ensures
        r@ == chars@,
{
    let mut r = String::new();
    let mut i: usize = 0;
    while i < chars.len()
        invariant
            i <= chars.len(),
            r@ == chars@.take(i as int),
        decreases chars.len() - i,
    {
        push_char(&mut r, chars[i]);
        i = i + 1;
        assert(r@ =~= chars@.take(i as int));
    }
    assert(r@ =~= chars@);
    r
}

proof fn lemma_drop_controls_push(s: Seq<char>, c: char)
    ensures
        drop_controls(s.push(c)) == if is_control_char(c) {
            drop_controls(s)
        } else {
            drop_controls(s).push(c)
        },
{
    assert(s.push(c).drop_last() =~= s);
    assert(seq![c] =~= Seq::empty().push(c));
    assert(drop_controls(s).push(c) =~= drop_controls(s) + seq![c]);
}

/// Text without control characters loses nothing to `drop_controls`.
pub proof fn lemma_drop_controls_of_clean(s: Seq<char>)
    requires
        forall|i: int| 0 <= i < s.len() ==> !is_control_char(#[trigger] s[i]),
    ensures
        drop_controls(s) == s,
    decreases s.len(),
{
    if s.len() == 0 {
        assert(drop_controls(s) =~= s);
    } else {
        let rest = s.drop_last();
        assert forall|i: int| 0 <= i < rest.len() implies !is_control_char(#[trigger] rest[i]) by {
            assert(rest[i] == s[i]);
        }
        lemma_drop_controls_of_clean(rest);
        assert(!is_control_char(s[s.len() - 1]));
        assert(rest.push(s.last()) =~= s);
        lemma_drop_controls_push(rest, s.last());
    }
}

/// One more item before the cut adds it; after the cut it changes nothing.
pub proof fn lemma_at_most_push<A>(s: Seq<A>, x: A, n: nat)
    ensures
        at_most(s.push(x), n) == if s.len() < n {
            at_most(s, n).push(x)
        } else {
            at_most(s, n)
        },
{
    if s.len() < n {
        assert(at_most(s.push(x), n) =~= s.push(x));
    } else {
        assert(at_most(s.push(x), n) =~= at_most(s, n));
    }
}

/// Trims `value`, drops control characters and keeps at most `max_chars`
/// characters.
pub fn clean_text(value: &str, max_chars: usize) -> (r: String)
    ensures
        r@ == clean_text_spec(value@, max_chars as nat),
{
    let chars = chars_of(trim(value));
    let ghost t = trimmed(value@);
    let mut kept: Vec<char> = Vec::new();
    let mut i: usize = 0;
    while i < chars.len()
        invariant
            chars@ == t,
            i <= chars.len(),
            kept@ == at_most(drop_controls(t.take(i as int)), max_chars as nat),
        decreases chars.len() - i,
    {
        let c = chars[i];
        proof {
            assert(t.take(i as int + 1) =~= t.take(i as int).push(c));
            lemma_drop_controls_push(t.take(i as int), c);
            lemma_at_most_push(drop_controls(t.take(i as int)), c, max_chars as nat);
            if drop_controls(t.take(i as int)).len() >= max_chars {
                assert(kept@.len() == max_chars);
            } else {
                assert(kept@.len() == drop_controls(t.take(i as int)).len());
            }
        }
        if !char_is_control(c) && kept.len() < max_chars {
            kept.push(c);
        }
        i = i + 1;
    }
    assert(t.take(chars.len() as int) =~= t);
    text_of(&kept)
}

/// The Unicode full upper-case mapping of a text, as `str::to_uppercase`
/// computes it.
pub uninterp spec fn uppercase(text: Seq<char>) -> Seq<char>;

/// `str::to_uppercase`. Its result depends on the text alone; what it is
/// (Unicode's case tables) is left to the name `uppercase`.
#[verifier::external_body]
pub(crate) fn to_uppercase(s: &str) -> (r: String)
    ensures
        r@ == uppercase(s@),
{
    s.to_uppercase()
}

/// Whether `pattern` occurs in `s`.
pub fn contains_text(s: &Vec<char>, pattern: &Vec<char>) -> (r: bool)
    ensures
        r == contains_run(s@, pattern@),
{
    if pattern.len() > s.len() {
        return false;
    }
    let last = s.len() - pattern.len();
    let mut i: usize = 0;
    while i <= last
        invariant
            last == s.len() - pattern.len(),
            pattern.len() <= s.len(),
            i <= last + 1,
            forall|k: int| 0 <= k < i ==> #[trigger] s@.subrange(k, k + pattern@.len()) != pattern@,
        decreases last + 1 - i,
    {
        let mut j: usize = 0;
        let mut same = true;
        while j < pattern.len()
            invariant
                i <= last,
                last == s.len() - pattern.len(),
                j <= pattern.len(),
                same == (forall|m: int| 0 <= m < j ==> s@[i + m] == pattern@[m]),
            decreases pattern.len() - j,
        {
            if s[i + j] != pattern[j] {
                same = false;
            }
            j = j + 1;
        }
        if same {
            assert(s@.subrange(i as int, i + pattern@.len()) =~= pattern@);
            return true;
        }
        assert(s@.subrange(i as int, i + pattern@.len()) !== pattern@) by {
            let m = choose|m: int| 0 <= m < pattern.len() && s@[i + m] != pattern@[m];
            assert(s@.subrange(i as int, i + pattern@.len())[m] != pattern@[m]);
        }
        i = i + 1;
    }
    false
}

/// Every character takes one to four bytes in UTF-8.
pub proof fn lemma_utf8_len_bounds(s: Seq<char>)
    ensures
        s.len() <= utf8_len(s) <= 4 * s.len(),
    decreases s.len(),
{
    if s.len() > 0 {
        lemma_utf8_len_bounds(s.drop_first());
    }
}

/// One more item of `s` extends the filtered prefix by what `f` keeps of it.
pub proof fn lemma_filter_map_take<A, B>(s: Seq<A>, f: spec_fn(A) -> Option<B>, i: int)
    requires
        0 <= i < s.len(),
    ensures
        s.take(i + 1).filter_map(f) == match f(s[i]) {
            Some(b) => s.take(i).filter_map(f).push(b),
            None => s.take(i).filter_map(f),
        },
{
    assert(s.take(i + 1).drop_last() =~= s.take(i));
    assert(s.take(i + 1).last() == s[i]);
    match f(s[i]) {
        Some(b) => {
            assert(s.take(i).filter_map(f) + seq![b] =~= s.take(i).filter_map(f).push(b));
        },
        None => {},
    }
}

/// A copy of the text.
pub fn copy_text(s: &String) -> (r: String)
    ensures
        r@ == s@,
{
    s.clone()
}

/// A copy of an optional text.
pub fn copy_optional_text(s: &Option<String>) -> (r: Option<String>)
    ensures
        r.deep_view() == s.deep_view(),
{
    match s {
        Some(t) => Some(t.clone()),
        None => None,
    }
}

/// A copy of a list of texts.
pub fn copy_texts(v: &Vec<String>) -> (r: Vec<String>)
    ensures
        r.deep_view() == v.deep_view(),
{
    let mut r: Vec<String> = Vec::new();
    let mut i: usize = 0;
    while i < v.len()
        invariant
            i <= v.len(),
            r@.len() == i,
            forall|j: int| 0 <= j < i ==> (#[trigger] r@[j])@ == v@[j]@,
        decreases v.len() - i,
    {
        let t = copy_text(&v[i]);
        r.push(t);
        i = i + 1;
    }
    assert(r.deep_view() =~= v.deep_view());
    r
}

/// Pushing a text onto a list pushes its characters onto the list's view.
pub proof fn lemma_texts_push(before: Vec<String>, after: Vec<String>, t: String)
    requires
        after@ == before@.push(t),
    ensures
        after.deep_view() == before.deep_view().push(t@),
{
    assert(after.deep_view() =~= before.deep_view().push(t@));
}

} // verus!
