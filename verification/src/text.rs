//! Text in program files: interpreter paths and script headers.

use vstd::prelude::*;
use vstd::slice::slice_subrange;
use vstd::utf8::{decode_utf8, encode_utf8, valid_utf8};

verus! {

/// How much of a script is looked at to find its interpreter.
pub const SCRIPT_HEAD: usize = 256;

/// Whether `c` is a space character: one with the Unicode property
/// `White_Space`, or only one of the ASCII space characters (space, tab, line
/// feed, form feed, carriage return).
pub open spec fn is_space(ascii: bool, c: char) -> bool {
    if ascii {
        c == ' ' || c == '\t' || c == '\n' || c == '\x0C' || c == '\r'
    } else {
        let n = c as u32;
        ||| 0x9 <= n <= 0xD
        ||| n == 0x20
        ||| n == 0x85
        ||| n == 0xA0
        ||| n == 0x1680
        ||| 0x2000 <= n <= 0x200A
        ||| n == 0x2028
        ||| n == 0x2029
        ||| n == 0x202F
        ||| n == 0x205F
        ||| n == 0x3000
    }
}

/// `s` without the space characters that it starts with.
pub open spec fn trim_start(ascii: bool, s: Seq<char>) -> Seq<char>
    decreases s.len(),
{
    if s.len() > 0 && is_space(ascii, s[0]) {
        trim_start(ascii, s.drop_first())
    } else {
        s
    }
}

/// `s` without the space characters that it ends with.
pub open spec fn trim_end(ascii: bool, s: Seq<char>) -> Seq<char>
    decreases s.len(),
{
    if s.len() > 0 && is_space(ascii, s.last()) {
        trim_end(ascii, s.drop_last())
    } else {
        s
    }
}

/// `s` without the space characters that it starts or ends with.
pub open spec fn trimmed(ascii: bool, s: Seq<char>) -> Seq<char> {
    trim_end(ascii, trim_start(ascii, s))
}

/// The index of the first ASCII space character, from `i` on; the length of `s`
/// if there is none.
pub open spec fn first_space(s: Seq<char>, i: int) -> int
    decreases s.len() - i,
{
    if i >= s.len() || is_space(true, s[i]) {
        i
    } else {
        first_space(s, i + 1)
    }
}

/// The words of an interpreter line: what precedes the first space, and what
/// follows it, if there is one; both without surrounding spaces.
pub open spec fn line_words(line: Seq<char>) -> Seq<Seq<char>> {
    let t = trimmed(false, line);
    let k = first_space(t, 0);
    if k < t.len() {
        seq![trimmed(true, t.take(k)), trimmed(true, t.skip(k + 1))]
    } else {
        seq![trimmed(true, t)]
    }
}

/// The index of the first line feed, from `i` on; the length of `d` if there is
/// none.
pub open spec fn first_line_feed(d: Seq<u8>, i: int) -> int
    decreases d.len() - i,
{
    if i >= d.len() || d[i] == 10 {
        i
    } else {
        first_line_feed(d, i + 1)
    }
}

/// Whether `d` starts like a script, with `#!`.
pub open spec fn is_script(d: Seq<u8>) -> bool {
    d.len() >= 2 && d[0] == 0x23 && d[1] == 0x21
}

/// The bytes of a script's interpreter line: what follows `#!`, up to the first
/// line feed, within the part of the script that is looked at.
pub open spec fn script_line(d: Seq<u8>) -> Seq<u8> {
    let head = d.subrange(2, if d.len() < SCRIPT_HEAD { d.len() as int } else { SCRIPT_HEAD as int });
    head.take(first_line_feed(head, 0))
}

/// The text in `d` up to the zero byte that ends it. `None` if `d` does not end
/// with a zero byte, holds another one, or is not UTF-8.
pub open spec fn c_string(d: Seq<u8>) -> Option<Seq<char>> {
    if d.len() > 0 && d.last() == 0 && !d.drop_last().contains(0) && valid_utf8(d.drop_last()) {
        Some(decode_utf8(d.drop_last()))
    } else {
        None
    }
}

/// Whether `s` ends with `.sh`.
pub open spec fn is_shell_path(s: Seq<char>) -> bool {
    s.len() >= 3 && s[s.len() - 3] == '.' && s[s.len() - 2] == 's' && s[s.len() - 1] == 'h'
}

/// The part of `s` from `i` to `j` is `s` without surrounding spaces.
pub open spec fn is_core(ascii: bool, s: Seq<char>, i: int, j: int) -> bool {
    &&& 0 <= i <= j <= s.len()
    &&& forall|k: int| 0 <= k < i || j <= k < s.len() ==> is_space(ascii, #[trigger] s[k])
    &&& i < j ==> !is_space(ascii, s[i]) && !is_space(ascii, s[j - 1])
}

proof fn lemma_trim_start(ascii: bool, s: Seq<char>) -> (i: int)
    ensures
        0 <= i <= s.len(),
        trim_start(ascii, s) == s.skip(i),
        forall|k: int| 0 <= k < i ==> is_space(ascii, #[trigger] s[k]),
        i < s.len() ==> !is_space(ascii, s[i]),
    decreases s.len(),
{
    if s.len() > 0 && is_space(ascii, s[0]) {
        let i = lemma_trim_start(ascii, s.drop_first());
        assert(s.drop_first().skip(i) =~= s.skip(i + 1));
        assert forall|k: int| 0 <= k < i + 1 implies is_space(ascii, #[trigger] s[k]) by {
            if k > 0 {
                assert(s[k] == s.drop_first()[k - 1]);
            }
        }
        assert(i + 1 < s.len() ==> s[i + 1] == s.drop_first()[i]);
        i + 1
    } else {
        assert(s.skip(0) =~= s);
        0
    }
}

proof fn lemma_trim_end(ascii: bool, s: Seq<char>) -> (j: int)
    ensures
        0 <= j <= s.len(),
        trim_end(ascii, s) == s.take(j),
        forall|k: int| j <= k < s.len() ==> is_space(ascii, #[trigger] s[k]),
        j > 0 ==> !is_space(ascii, s[j - 1]),
    decreases s.len(),
{
    if s.len() > 0 && is_space(ascii, s.last()) {
        let j = lemma_trim_end(ascii, s.drop_last());
        assert(s.drop_last().take(j) =~= s.take(j));
        assert forall|k: int| j <= k < s.len() implies is_space(ascii, #[trigger] s[k]) by {
            if k < s.len() - 1 {
                assert(s[k] == s.drop_last()[k]);
            }
        }
        j
    } else {
        assert(s.take(s.len() as int) =~= s);
        s.len() as int
    }
}

/// Trimming a text keeps one part of it as it is: the part neither starts nor
/// ends with a space character, and there are only space characters around it.
pub proof fn law_trimmed(ascii: bool, s: Seq<char>)
    ensures
        exists|i: int, j: int| #[trigger]
            is_core(ascii, s, i, j) && trimmed(ascii, s) == s.subrange(i, j),
{
    let i = lemma_trim_start(ascii, s);
    let rest = s.skip(i);
    let n = lemma_trim_end(ascii, rest);
    assert(rest.take(n) =~= s.subrange(i, i + n));
    assert forall|k: int| 0 <= k < i || i + n <= k < s.len() implies is_space(
        ascii,
        #[trigger] s[k],
    ) by {
        if k >= i + n {
            assert(s[k] == rest[k - i]);
        }
    }
    assert(n > 0 ==> rest[n - 1] == s[i + n - 1]);
    assert(is_core(ascii, s, i, i + n));
}

/// `core::str::from_utf8`. Trusted: the text that the bytes encode, if they are
/// valid UTF-8.
#[verifier::external_body]
fn utf8_text(bytes: &[u8]) -> (r: Option<&str>)
    ensures
        r is Some <==> valid_utf8(bytes@),
        r matches Some(s) ==> s@ == decode_utf8(bytes@),
{
    core::str::from_utf8(bytes).ok()
}

/// Whether `c` is a space character.
pub fn space(ascii: bool, c: char) -> (r: bool)
    ensures
        r == is_space(ascii, c),
{
    if ascii {
        c == ' ' || c == '\t' || c == '\n' || c == '\x0C' || c == '\r'
    } else {
        let n = c as u32;
        (0x9 <= n && n <= 0xD) || n == 0x20 || n == 0x85 || n == 0xA0 || n == 0x1680 || (0x2000 <= n
            && n <= 0x200A) || n == 0x2028 || n == 0x2029 || n == 0x202F || n == 0x205F || n
            == 0x3000
    }
}

/// Removes the space characters that a text starts or ends with.
pub fn trim(ascii: bool, s: &str) -> (r: &str)
    ensures
        r@ == trimmed(ascii, s@),
{
    let n = s.unicode_len();
    let mut i: usize = 0;
    assert(s@.skip(0) =~= s@);
    while i < n && space(ascii, s.get_char(i))
        invariant
            n == s@.len(),
            i <= n,
            trim_start(ascii, s@) == trim_start(ascii, s@.skip(i as int)),
        decreases n - i,
    {
        assert(s@.skip(i as int).drop_first() =~= s@.skip(i + 1));
        i = i + 1;
    }
    let ghost rest = s@.skip(i as int);
    assert(i < n ==> rest[0] == s@[i as int]);
    assert(trim_start(ascii, s@) == rest);
    let mut j: usize = n;
    assert(rest.take(n - i) =~= rest);
    while j > i && space(ascii, s.get_char(j - 1))
        invariant
            n == s@.len(),
            i <= j <= n,
            rest == s@.skip(i as int),
            trim_end(ascii, rest) == trim_end(ascii, rest.take(j - i)),
        decreases j - i,
    {
        assert(rest.take(j - i).last() == s@[j - 1]);
        assert(rest.take(j - i).drop_last() =~= rest.take(j - 1 - i));
        j = j - 1;
    }
    assert(j > i ==> rest.take(j - i).last() == s@[j - 1]);
    assert(rest.take(j - i) =~= s@.subrange(i as int, j as int));
    s.substring_char(i, j)
}

/// Splits an interpreter line into its words.
fn split_line(line: &str) -> (r: Vec<String>)
    ensures
        r@.map_values(|s: String| s@) == line_words(line@),
{
    let t = trim(false, line);
    let n = t.unicode_len();
    let mut k: usize = 0;
    while k < n && !space(true, t.get_char(k))
        invariant
            n == t@.len(),
            k <= n,
            first_space(t@, 0) == first_space(t@, k as int),
        decreases n - k,
    {
        k = k + 1;
    }
    let mut r: Vec<String> = Vec::new();
    if k < n {
        let a = trim(true, t.substring_char(0, k)).to_owned();
        let b = trim(true, t.substring_char(k + 1, n)).to_owned();
        assert(t@.subrange(0, k as int) =~= t@.take(k as int));
        assert(t@.subrange(k + 1, n as int) =~= t@.skip(k + 1));
        r.push(a);
        r.push(b);
    } else {
        r.push(trim(true, t).to_owned());
    }
    assert(r@.map_values(|s: String| s@) =~= line_words(line@));
    r
}

/// The words of a script's interpreter line. `None` if the line is not UTF-8.
pub fn script_words(data: &Vec<u8>) -> (r: Option<Vec<String>>)
    requires
        is_script(data@),
    ensures
        match r {
            Some(v) => valid_utf8(script_line(data@)) && v@.map_values(|s: String| s@)
                == line_words(decode_utf8(script_line(data@))),
            None => !valid_utf8(script_line(data@)),
        },
{
    let end: usize = if data.len() < SCRIPT_HEAD { data.len() } else { SCRIPT_HEAD };
    let head = slice_subrange(data.as_slice(), 2, end);
    let mut k: usize = 0;
    while k < head.len() && head[k] != 10
        invariant
            k <= head@.len(),
            first_line_feed(head@, 0) == first_line_feed(head@, k as int),
        decreases head@.len() - k,
    {
        k = k + 1;
    }
    let line = slice_subrange(head, 0, k);
    assert(line@ =~= script_line(data@));
    match utf8_text(line) {
        None => None,
        Some(text) => Some(split_line(text)),
    }
}

/// Whether a file starts like a script.
pub fn starts_like_script(data: &Vec<u8>) -> (r: bool)
    ensures
        r == is_script(data@),
{
    data.len() >= 2 && data[0] == 0x23 && data[1] == 0x21
}

/// Reads a text that a zero byte ends.
pub fn read_c_string(data: &Vec<u8>) -> (r: Option<String>)
    ensures
        match r {
            Some(s) => c_string(data@) == Some(s@),
            None => c_string(data@) is None,
        },
{
    if data.len() == 0 {
        return None;
    }
    let last = data.len() - 1;
    let ghost body = data@.drop_last();
    let mut i: usize = 0;
    while i < last && data[i] != 0
        invariant
            last == data@.len() - 1,
            i <= last,
            forall|j: int| 0 <= j < i ==> data@[j] != 0,
        decreases last - i,
    {
        i = i + 1;
    }
    if i < last {
        assert(body[i as int] == 0);
        return None;
    }
    assert(!body.contains(0));
    if data[last] != 0 {
        return None;
    }
    let text = slice_subrange(data.as_slice(), 0, last);
    assert(text@ =~= body);
    match utf8_text(text) {
        None => None,
        Some(s) => Some(s.to_owned()),
    }
}

/// Whether a path ends with `.sh`.
pub fn is_shell_script(path: &str) -> (r: bool)
    ensures
        r == is_shell_path(path@),
{
    let n = path.unicode_len();
    n >= 3 && path.get_char(n - 3) == '.' && path.get_char(n - 2) == 's' && path.get_char(n - 1)
        == 'h'
}

// ---------- Laws ----------

/// The ASCII space characters are the space, the tab, the line feed, the form feed
/// and the carriage return. Unicode has these, the vertical tab, the next line,
/// the no-break space, and the spaces and separators from U+1680 on.
pub proof fn law_spaces(c: char)
    ensures
        ({
            let n = c as u32;
            &&& is_space(true, c) <==> n == 32 || n == 9 || n == 10 || n == 12 || n == 13
            &&& is_space(true, c) ==> is_space(false, c)
            &&& n < 128 ==> (is_space(false, c) <==> is_space(true, c) || n == 11)
            &&& 128 <= n < 0x1680 ==> (is_space(false, c) <==> n == 0x85 || n == 0xA0)
            &&& n >= 0x1680 ==> (is_space(false, c) <==> n == 0x1680 || 0x2000 <= n <= 0x200A || n
                == 0x2028 || n == 0x2029 || n == 0x202F || n == 0x205F || n == 0x3000)
        }),
{
}

proof fn lemma_first_space(s: Seq<char>, i: int)
    requires
        0 <= i <= s.len(),
    ensures
        i <= first_space(s, i) <= s.len(),
        first_space(s, i) < s.len() ==> is_space(true, s[first_space(s, i)]),
        forall|k: int| i <= k < first_space(s, i) ==> !is_space(true, #[trigger] s[k]),
    decreases s.len() - i,
{
    if i < s.len() && !is_space(true, s[i]) {
        lemma_first_space(s, i + 1);
    }
}

/// A text without ASCII spaces is its own core.
proof fn lemma_nothing_to_trim(s: Seq<char>)
    requires
        forall|k: int| 0 <= k < s.len() ==> !is_space(true, #[trigger] s[k]),
    ensures
        trimmed(true, s) == s,
{
    law_trimmed(true, s);
    let (i, j) = choose|i: int, j: int| #[trigger]
        is_core(true, s, i, j) && trimmed(true, s) == s.subrange(i, j);
    if i > 0 {
        assert(is_space(true, s[0]));
    }
    if j < s.len() {
        assert(is_space(true, s[j]));
    }
    assert(s.subrange(i, j) =~= s);
}

/// The interpreter of a script is what its line holds up to the first ASCII space,
/// without the spaces around the line; all that follows that space, without the
/// spaces around it, is one argument.
pub proof fn law_line_words(line: Seq<char>, k: int)
    requires
        ({
            let t = trimmed(false, line);
            &&& 0 <= k <= t.len()
            &&& forall|i: int| 0 <= i < k ==> !is_space(true, #[trigger] t[i])
            &&& k < t.len() ==> is_space(true, t[k])
        }),
    ensures
        ({
            let t = trimmed(false, line);
            let words = line_words(line);
            &&& words[0] == t.subrange(0, k)
            &&& k == t.len() ==> words.len() == 1
            &&& k < t.len() ==> words.len() == 2 && words[1] == trimmed(
                true,
                t.subrange(k + 1, t.len() as int),
            )
        }),
{
    let t = trimmed(false, line);
    lemma_first_space(t, 0);
    let f = first_space(t, 0);
    if f < k {
        assert(is_space(true, t[f]));
    } else if k < f {
        assert(!is_space(true, t[k]));
    }
    assert(t.take(k) =~= t.subrange(0, k));
    lemma_nothing_to_trim(t.take(k));
    if k < t.len() {
        assert(t.skip(k + 1) =~= t.subrange(k + 1, t.len() as int));
    } else {
        assert(t.take(k) =~= t);
    }
}

proof fn lemma_first_line_feed(d: Seq<u8>, i: int)
    requires
        0 <= i <= d.len(),
    ensures
        i <= first_line_feed(d, i) <= d.len(),
        first_line_feed(d, i) < d.len() ==> d[first_line_feed(d, i)] == 10,
        forall|k: int| i <= k < first_line_feed(d, i) ==> #[trigger] d[k] != 10,
    decreases d.len() - i,
{
    if i < d.len() && d[i] != 10 {
        lemma_first_line_feed(d, i + 1);
    }
}

/// A script starts with the characters `#` and `!`. Its line is what follows them
/// up to the first line feed, or else up to the end of the first 256 bytes.
pub proof fn law_script_line(d: Seq<u8>)
    ensures
        is_script(d) <==> d.len() >= 2 && d[0] == '#' as u8 && d[1] == '!' as u8,
        is_script(d) ==> {
            let n = script_line(d).len() as int;
            let end: int = if d.len() < 256 { d.len() as int } else { 256 };
            &&& 2 + n <= end
            &&& script_line(d) == d.subrange(2, 2 + n)
            &&& forall|i: int| 2 <= i < 2 + n ==> #[trigger] d[i] != '\n' as u8
            &&& 2 + n < end ==> d[2 + n] == '\n' as u8
        },
{
    if is_script(d) {
        let end: int = if d.len() < 256 { d.len() as int } else { 256 };
        let head = d.subrange(2, end);
        lemma_first_line_feed(head, 0);
        let n = first_line_feed(head, 0);
        assert(head.take(n) =~= d.subrange(2, 2 + n));
        assert forall|i: int| 2 <= i < 2 + n implies #[trigger] d[i] != '\n' as u8 by {
            assert(d[i] == head[i - 2]);
        }
        if n < head.len() {
            assert(head[n] == d[2 + n]);
        }
    }
}

/// The path of an interpreter is read from the bytes of its characters and one
/// zero byte behind them, and from nothing else.
pub proof fn law_c_string(d: Seq<u8>, t: Seq<char>)
    ensures
        c_string(d) == Some(t) <==> d == encode_utf8(t).push(0) && !encode_utf8(t).contains(0),
{
    broadcast use vstd::utf8::encode_utf8_valid_utf8;
    broadcast use vstd::utf8::encode_utf8_decode_utf8;
    broadcast use vstd::utf8::decode_utf8_encode_utf8;

    if c_string(d) == Some(t) {
        assert(decode_utf8(d.drop_last()) == t);
        assert(encode_utf8(decode_utf8(d.drop_last())) == d.drop_last());
        assert(d =~= d.drop_last().push(0));
    }
    if d == encode_utf8(t).push(0) && !encode_utf8(t).contains(0) {
        assert(d.drop_last() =~= encode_utf8(t));
        assert(decode_utf8(encode_utf8(t)) == t);
    }
}

/// A path counts as that of a shell script exactly if its last three characters
/// are `.sh`.
pub proof fn law_shell_path(s: Seq<char>)
    ensures
        is_shell_path(s) <==> s.len() >= 3 && s.subrange(s.len() - 3, s.len() as int) == ".sh"@,
{
    reveal_strlit(".sh");
    if s.len() >= 3 {
        let end = s.subrange(s.len() - 3, s.len() as int);
        assert(end[0] == s[s.len() - 3] && end[1] == s[s.len() - 2] && end[2] == s[s.len() - 1]);
        if is_shell_path(s) {
            assert(end =~= ".sh"@);
        }
    }
}

} // verus!
