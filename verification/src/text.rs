//! Small string helpers shared by the other modules.

use vstd::prelude::*;
use vstd::utf8::encode_utf8;

verus! {

/// Appends one character to a string (`String::push`).
#[verifier::external_body]
pub(crate) fn push_char(s: &mut String, c: char)
    ensures
        final(s)@ == old(s)@.push(c),
{
    s.push(c);
}

} // verus!

verus! {

/// The characters of a string, in order.
pub fn chars_of(s: &str) -> (v: Vec<char>)
    ensures
        v@ == s@,
{
    broadcast use vstd::string::group_string_axioms;
    let mut v: Vec<char> = Vec::new();
    for c in iter: s.chars()
        invariant
            v@ == iter.seq().take(iter.index() as int),
    {
        v.push(c);
    }
    v
}

} // verus!

verus! {

/// Whether `c` is an ASCII decimal digit.
pub open spec fn is_digit(c: char) -> bool {
    '0' <= c <= '9'
}

/// Whether `c` is an ASCII letter or digit.
pub open spec fn is_ascii_alnum(c: char) -> bool {
    ('a' <= c <= 'z') || ('A' <= c <= 'Z') || is_digit(c)
}

/// ASCII lowercasing of one character; every other character is left alone.
pub open spec fn lower_char(c: char) -> char {
    if 'A' <= c <= 'Z' {
        ((c as u32) + 32) as char
    } else {
        c
    }
}

/// ASCII lowercasing of a whole string.
pub open spec fn lower(s: Seq<char>) -> Seq<char> {
    s.map_values(|c: char| lower_char(c))
}

/// The pieces of `s` between `.` separators, in order; always at least one piece.
pub open spec fn split_dots(s: Seq<char>) -> Seq<Seq<char>>
    decreases s.len(),
{
    if s.len() == 0 {
        seq![Seq::<char>::empty()]
    } else {
        let rest = split_dots(s.drop_last());
        if s.last() == '.' {
            rest.push(Seq::<char>::empty())
        } else {
            rest.update(rest.len() - 1, rest.last().push(s.last()))
        }
    }
}

/// `split_dots` never yields an empty list.
pub proof fn lemma_split_dots_nonempty(s: Seq<char>)
    ensures
        split_dots(s).len() >= 1,
    decreases s.len(),
{
    if s.len() > 0 {
        lemma_split_dots_nonempty(s.drop_last());
    }
}

/// Lowercases one character.
pub fn lower_char_exec(c: char) -> (r: char)
    ensures
        r == lower_char(c),
{
    if 'A' <= c && c <= 'Z' {
        let code: u32 = c as u32;
        proof {
            assert(65 <= code <= 90);
        }
        let shifted: u8 = (code + 32) as u8;
        shifted as char
    } else {
        c
    }
}

/// Lowercases the ASCII letters of `s`.
pub fn lower_exec(s: &Vec<char>) -> (r: Vec<char>)
    ensures
        r@ == lower(s@),
{
    let mut r: Vec<char> = Vec::new();
    let mut i: usize = 0;
    while i < s.len()
        invariant
            i <= s.len(),
            r@ == lower(s@.take(i as int)),
        decreases s.len() - i,
    {
        let c = lower_char_exec(s[i]);
        r.push(c);
        assert(s@.take(i as int + 1) == s@.take(i as int).push(s@[i as int]));
        i = i + 1;
    }
    assert(s@.take(s.len() as int) == s@);
    r
}

/// The character sequences held by a list of character vectors.
pub open spec fn char_views(v: Seq<Vec<char>>) -> Seq<Seq<char>> {
    v.map_values(|x: Vec<char>| x@)
}

/// Splits `s` at every `.`.
pub fn split_dots_exec(s: &Vec<char>) -> (r: Vec<Vec<char>>)
    ensures
        char_views(r@) == split_dots(s@),
{
    let mut done: Vec<Vec<char>> = Vec::new();
    let mut cur: Vec<char> = Vec::new();
    let mut i: usize = 0;
    assert(s@.take(0) =~= Seq::<char>::empty());
    assert(char_views(done@).push(cur@) =~= seq![Seq::<char>::empty()]);
    while i < s.len()
        invariant
            i <= s.len(),
            split_dots(s@.take(i as int)) == char_views(done@).push(cur@),
        decreases s.len() - i,
    {
        let c = s[i];
        let ghost prefix = s@.take(i as int + 1);
        assert(prefix.drop_last() =~= s@.take(i as int));
        assert(prefix.last() == c);
        if c == '.' {
            let ghost before = char_views(done@);
            let ghost cur_view = cur@;
            done.push(cur);
            cur = Vec::new();
            assert(char_views(done@) =~= before.push(cur_view));
            assert(char_views(done@).push(cur@) =~= split_dots(prefix));
        } else {
            cur.push(c);
            assert(char_views(done@).push(cur@) =~= split_dots(prefix));
        }
        i = i + 1;
    }
    assert(s@.take(s.len() as int) =~= s@);
    let ghost before = char_views(done@);
    let ghost cur_view = cur@;
    done.push(cur);
    assert(char_views(done@) =~= before.push(cur_view));
    done
}

} // verus!

verus! {

/// The number written by a run of decimal digits.
pub open spec fn digits_value(g: Seq<char>) -> int
    decreases g.len(),
{
    if g.len() == 0 {
        0
    } else {
        digits_value(g.drop_last()) * 10 + ((g.last() as int) - ('0' as int))
    }
}

/// One dotted-decimal octet as the standard library reads it: one to three digits, no leading
/// zero on a longer group, at most 255.
pub open spec fn is_octet_text(g: Seq<char>) -> bool {
    &&& 1 <= g.len() <= 3
    &&& forall|k: int| 0 <= k < g.len() ==> is_digit(#[trigger] g[k])
    &&& g.len() > 1 ==> g[0] != '0'
    &&& digits_value(g) <= 255
}

/// A dotted-decimal IPv4 address: exactly four octets.
pub open spec fn is_ipv4_text(s: Seq<char>) -> bool {
    let parts = split_dots(s);
    parts.len() == 4 && forall|k: int| 0 <= k < 4 ==> is_octet_text(#[trigger] parts[k])
}

/// Whether `g` is one dotted-decimal octet.
pub fn is_octet_exec(g: &Vec<char>) -> (r: bool)
    ensures
        r == is_octet_text(g@),
{
    if g.len() == 0 || g.len() > 3 {
        return false;
    }
    if g.len() > 1 && g[0] == '0' {
        return false;
    }
    let mut value: u32 = 0;
    let mut i: usize = 0;
    while i < g.len()
        invariant
            1 <= g.len() <= 3,
            i <= g.len(),
            forall|k: int| 0 <= k < i ==> is_digit(#[trigger] g@[k]),
            value == digits_value(g@.take(i as int)),
            value <= 999,
            value < 10 * 10 * 10,
            i == 0 ==> value == 0,
            i == 1 ==> value < 10,
            i == 2 ==> value < 100,
        decreases g.len() - i,
    {
        let c = g[i];
        if !('0' <= c && c <= '9') {
            return false;
        }
        let d: u32 = (c as u32) - ('0' as u32);
        assert(g@.take(i as int + 1).drop_last() =~= g@.take(i as int));
        value = value * 10 + d;
        i = i + 1;
    }
    assert(g@.take(g.len() as int) =~= g@);
    value <= 255
}

/// Whether `s` is a dotted-decimal IPv4 address.
pub fn is_ipv4_exec(s: &Vec<char>) -> (r: bool)
    ensures
        r == is_ipv4_text(s@),
{
    let parts = split_dots_exec(s);
    proof {
        lemma_split_dots_nonempty(s@);
    }
    if parts.len() != 4 {
        return false;
    }
    let mut k: usize = 0;
    while k < 4
        invariant
            k <= 4,
            parts@.len() == 4,
            char_views(parts@) == split_dots(s@),
            forall|j: int| 0 <= j < k ==> is_octet_text(#[trigger] split_dots(s@)[j]),
        decreases 4 - k,
    {
        assert(char_views(parts@)[k as int] == parts@[k as int]@);
        if !is_octet_exec(&parts[k]) {
            return false;
        }
        k = k + 1;
    }
    true
}

/// Whether a character vector spells exactly the string `lit`.
pub fn chars_eq_str(v: &Vec<char>, lit: &str) -> (r: bool)
    ensures
        r == (v@ == lit@),
{
    let w = chars_of(lit);
    if v.len() != w.len() {
        return false;
    }
    let mut i: usize = 0;
    while i < v.len()
        invariant
            v.len() == w.len(),
            w@ == lit@,
            i <= v.len(),
            forall|k: int| 0 <= k < i ==> v@[k] == w@[k],
        decreases v.len() - i,
    {
        if v[i] != w[i] {
            return false;
        }
        i = i + 1;
    }
    assert(v@ =~= w@);
    true
}

} // verus!

verus! {

/// The pieces of `items` joined by `sep`.
pub open spec fn join(items: Seq<Seq<char>>, sep: Seq<char>) -> Seq<char>
    decreases items.len(),
{
    if items.len() == 0 {
        Seq::empty()
    } else if items.len() == 1 {
        items[0]
    } else {
        join(items.drop_last(), sep) + sep + items.last()
    }
}

/// The character sequences held by a list of strings.
pub open spec fn string_views(v: Seq<String>) -> Seq<Seq<char>> {
    v.map_values(|x: String| x@)
}

/// Joins strings with a separator (`[String]::join`).
pub fn join_exec(items: &Vec<String>, sep: &str) -> (r: String)
    ensures
        r@ == join(string_views(items@), sep@),
{
    let mut r = String::new();
    let mut i: usize = 0;
    while i < items.len()
        invariant
            i <= items.len(),
            r@ == join(string_views(items@.take(i as int)), sep@),
        decreases items.len() - i,
    {
        let ghost before = string_views(items@.take(i as int));
        assert(string_views(items@.take(i as int + 1)) =~= before.push(items@[i as int]@));
        assert(string_views(items@.take(i as int + 1)).drop_last() =~= before);
        if i > 0 {
            r.append(sep);
        }
        r.append(items[i].as_str());
        i = i + 1;
    }
    assert(items@.take(items.len() as int) =~= items@);
    r
}

} // verus!

verus! {

/// The character for a decimal digit.
pub open spec fn digit_char(d: nat) -> char {
    ((('0' as nat) + d) as u32) as char
}

/// `n` written in decimal, without leading zeros.
pub open spec fn decimal(n: nat) -> Seq<char>
    decreases n,
{
    if n < 10 {
        seq![digit_char(n)]
    } else {
        decimal(n / 10).push(digit_char(n % 10))
    }
}

/// Writes `n` in decimal.
pub fn decimal_exec(n: u64) -> (s: String)
    ensures
        s@ == decimal(n as nat),
{
    let mut rest: u64 = n;
    let mut reversed: Vec<char> = Vec::new();
    let ghost mut suffix: Seq<char> = Seq::empty();
    loop
        invariant_except_break
            decimal(n as nat) == decimal(rest as nat) + suffix,
        invariant
            suffix.len() == reversed@.len(),
            forall|k: int| 0 <= k < suffix.len() ==> suffix[k] == reversed@[reversed@.len() - 1 - k],
        ensures
            decimal(n as nat) =~= suffix,
        decreases rest,
    {
        let d: u64 = rest % 10;
        let c: char = ((48u8 + (d as u8)) as char);
        assert(c == digit_char(d as nat));
        if rest < 10 {
            proof {
                assert(decimal(rest as nat) == seq![c]);
                assert(decimal(n as nat) =~= seq![c] + suffix);
            }
            reversed.push(c);
            proof {
                suffix = seq![c] + suffix;
            }
            break;
        }
        proof {
            assert(decimal(rest as nat) == decimal((rest / 10) as nat).push(c));
            assert(decimal(rest as nat) + suffix =~= decimal((rest / 10) as nat) + (seq![c] + suffix));
            suffix = seq![c] + suffix;
        }
        reversed.push(c);
        rest = rest / 10;
    }
    assert(decimal(n as nat) =~= suffix);
    let mut s = String::new();
    let mut i: usize = reversed.len();
    while i > 0
        invariant
            i <= reversed@.len(),
            suffix.len() == reversed@.len(),
            forall|k: int| 0 <= k < suffix.len() ==> suffix[k] == reversed@[reversed@.len() - 1 - k],
            s@ == suffix.take(reversed@.len() - i),
        decreases i,
    {
        i = i - 1;
        let ghost done = reversed@.len() - 1 - i;
        assert(suffix.take(done + 1) =~= suffix.take(done).push(suffix[done]));
        push_char(&mut s, reversed[i]);
    }
    assert(suffix.take(reversed@.len() as int) =~= suffix);
    s
}

} // verus!

verus! {

/// Whether `c` has the Unicode `White_Space` property (`char::is_whitespace`).
pub open spec fn is_whitespace(c: char) -> bool {
    ('\u{9}' <= c <= '\u{d}') || c == ' ' || c == '\u{85}' || c == '\u{a0}' || c == '\u{1680}' || (
    '\u{2000}' <= c <= '\u{200a}') || c == '\u{2028}' || c == '\u{2029}' || c == '\u{202f}' || c
        == '\u{205f}' || c == '\u{3000}'
}

/// `s` without its leading whitespace.
pub open spec fn trim_start(s: Seq<char>) -> Seq<char>
    decreases s.len(),
{
    if s.len() > 0 && is_whitespace(s[0]) {
        trim_start(s.drop_first())
    } else {
        s
    }
}

/// `s` without its trailing whitespace.
pub open spec fn trim_end(s: Seq<char>) -> Seq<char>
    decreases s.len(),
{
    if s.len() > 0 && is_whitespace(s.last()) {
        trim_end(s.drop_last())
    } else {
        s
    }
}

/// `s` without leading or trailing whitespace (`str::trim`).
pub open spec fn trim(s: Seq<char>) -> Seq<char> {
    trim_end(trim_start(s))
}

/// The part of `s` before its first `;`, or all of it.
pub open spec fn before_semicolon(s: Seq<char>) -> Seq<char>
    decreases s.len(),
{
    if s.len() == 0 {
        s
    } else if s[0] == ';' {
        Seq::empty()
    } else {
        seq![s[0]] + before_semicolon(s.drop_first())
    }
}

fn is_whitespace_exec(c: char) -> (r: bool)
    ensures
        r == is_whitespace(c),
{
    ('\u{9}' <= c && c <= '\u{d}') || c == ' ' || c == '\u{85}' || c == '\u{a0}' || c == '\u{1680}'
        || ('\u{2000}' <= c && c <= '\u{200a}') || c == '\u{2028}' || c == '\u{2029}' || c
        == '\u{202f}' || c == '\u{205f}' || c == '\u{3000}'
}

/// The characters of `s` from `start` to `end`.
pub fn slice_chars(s: &Vec<char>, start: usize, end: usize) -> (r: Vec<char>)
    requires
        start <= end <= s.len(),
    ensures
        r@ == s@.subrange(start as int, end as int),
{
    let mut r: Vec<char> = Vec::new();
    let mut i = start;
    while i < end
        invariant
            start <= i <= end <= s.len(),
            r@ == s@.subrange(start as int, i as int),
        decreases end - i,
    {
        r.push(s[i]);
        assert(s@.subrange(start as int, i + 1) =~= s@.subrange(start as int, i as int).push(s@[i as int]));
        i = i + 1;
    }
    r
}

/// `str::trim` on a character vector.
pub fn trim_exec(s: &Vec<char>) -> (r: Vec<char>)
    ensures
        r@ == trim(s@),
{
    let mut start: usize = 0;
    assert(s@.skip(0) =~= s@);
    while start < s.len() && is_whitespace_exec(s[start])
        invariant
            start <= s.len(),
            trim_start(s@) == trim_start(s@.skip(start as int)),
        decreases s.len() - start,
    {
        assert(s@.skip(start as int).drop_first() =~= s@.skip(start as int + 1));
        start = start + 1;
    }
    let ghost front = s@.skip(start as int);
    assert(trim_start(front) == front);
    let mut end: usize = s.len();
    while end > start && is_whitespace_exec(s[end - 1])
        invariant
            start <= end <= s.len(),
            front == s@.skip(start as int),
            trim_end(front) == trim_end(s@.subrange(start as int, end as int)),
        decreases end,
    {
        assert(s@.subrange(start as int, end as int).drop_last() =~= s@.subrange(
            start as int,
            end - 1,
        ));
        end = end - 1;
    }
    assert(front =~= s@.subrange(start as int, s.len() as int));
    slice_chars(s, start, end)
}

/// The part of `s` before its first `;`.
pub fn before_semicolon_exec(s: &Vec<char>) -> (r: Vec<char>)
    ensures
        r@ == before_semicolon(s@),
{
    let mut i: usize = 0;
    assert(s@.skip(0) =~= s@);
    assert(s@.take(0) =~= Seq::<char>::empty());
    while i < s.len() && s[i] != ';'
        invariant
            i <= s.len(),
            before_semicolon(s@) == s@.take(i as int) + before_semicolon(s@.skip(i as int)),
        decreases s.len() - i,
    {
        assert(s@.skip(i as int).drop_first() =~= s@.skip(i as int + 1));
        assert(s@.take(i as int + 1) =~= s@.take(i as int) + seq![s@[i as int]]);
        i = i + 1;
    }
    assert(before_semicolon(s@.skip(i as int)) =~= Seq::<char>::empty());
    slice_chars(s, 0, i)
}

} // verus!

verus! {

/// Byte-wise lexicographic order, the order `str` and `String` compare in.
pub open spec fn bytes_lt(a: Seq<u8>, b: Seq<u8>) -> bool
    decreases a.len(),
{
    if a.len() == 0 {
        b.len() > 0
    } else if b.len() == 0 {
        false
    } else if a[0] != b[0] {
        a[0] < b[0]
    } else {
        bytes_lt(a.drop_first(), b.drop_first())
    }
}

/// String order: the order of the UTF-8 encodings.
pub open spec fn str_lt(a: Seq<char>, b: Seq<char>) -> bool {
    bytes_lt(encode_utf8(a), encode_utf8(b))
}

/// `bytes_lt` is a strict total order.
pub proof fn lemma_bytes_lt_order(a: Seq<u8>, b: Seq<u8>, c: Seq<u8>)
    ensures
        !bytes_lt(a, a),
        bytes_lt(a, b) ==> !bytes_lt(b, a),
        bytes_lt(a, b) && bytes_lt(b, c) ==> bytes_lt(a, c),
        a != b ==> bytes_lt(a, b) || bytes_lt(b, a),
    decreases a.len(),
{
    if a.len() > 0 && b.len() > 0 && c.len() > 0 {
        lemma_bytes_lt_order(a.drop_first(), b.drop_first(), c.drop_first());
    } else if a.len() > 0 && b.len() > 0 {
        lemma_bytes_lt_order(a.drop_first(), b.drop_first(), a.drop_first());
    } else if a.len() > 0 {
        lemma_bytes_lt_order(a.drop_first(), a.drop_first(), a.drop_first());
    }
    if a.len() > 0 && b.len() > 0 && a[0] == b[0] && a.drop_first() == b.drop_first() {
        assert(a =~= seq![a[0]] + a.drop_first());
        assert(b =~= seq![b[0]] + b.drop_first());
    }
    if a.len() == 0 && b.len() == 0 {
        assert(a =~= b);
    }
}

/// `str_lt` is a strict total order on strings.
pub proof fn lemma_str_lt_order(a: Seq<char>, b: Seq<char>, c: Seq<char>)
    ensures
        !str_lt(a, a),
        str_lt(a, b) ==> !str_lt(b, a),
        str_lt(a, b) && str_lt(b, c) ==> str_lt(a, c),
        a != b ==> str_lt(a, b) || str_lt(b, a),
{
    lemma_bytes_lt_order(encode_utf8(a), encode_utf8(b), encode_utf8(c));
    if a != b {
        vstd::utf8::encode_utf8_decode_utf8(a);
        vstd::utf8::encode_utf8_decode_utf8(b);
    }
}

/// Whether `a` sorts before `b`.
pub fn str_less(a: &str, b: &str) -> (r: bool)
    ensures
        r == str_lt(a@, b@),
{
    let x = a.as_bytes();
    let y = b.as_bytes();
    let mut i: usize = 0;
    assert(x@.skip(0) =~= x@);
    assert(y@.skip(0) =~= y@);
    while i < x.len() && i < y.len() && x[i] == y[i]
        invariant
            i <= x@.len(),
            i <= y@.len(),
            x@ == encode_utf8(a@),
            y@ == encode_utf8(b@),
            bytes_lt(x@, y@) == bytes_lt(x@.skip(i as int), y@.skip(i as int)),
        decreases x.len() - i,
    {
        assert(x@.skip(i as int).drop_first() =~= x@.skip(i as int + 1));
        assert(y@.skip(i as int).drop_first() =~= y@.skip(i as int + 1));
        i = i + 1;
    }
    if i == x.len() {
        i < y.len()
    } else if i == y.len() {
        false
    } else {
        x[i] < y[i]
    }
}

/// A strictly ascending list of strings.
pub open spec fn strictly_sorted(s: Seq<Seq<char>>) -> bool {
    forall|i: int, j: int| 0 <= i < j < s.len() ==> str_lt(#[trigger] s[i], #[trigger] s[j])
}

/// Adds `item` to a strictly ascending list, keeping it strictly ascending and free of repeats.
pub fn insert_sorted(list: &mut Vec<String>, item: &str)
    requires
        strictly_sorted(string_views(old(list)@)),
    ensures
        strictly_sorted(string_views(final(list)@)),
        forall|x: Seq<char>|
            string_views(final(list)@).contains(x) <==> (string_views(old(list)@).contains(x) || x
                == item@),
{
    let ghost old_views = string_views(list@);
    let mut i: usize = 0;
    while i < list.len() && str_less(list[i].as_str(), item)
        invariant
            i <= list@.len(),
            string_views(list@) == old_views,
            strictly_sorted(old_views),
            forall|k: int| 0 <= k < i ==> str_lt(#[trigger] old_views[k], item@),
        decreases list.len() - i,
    {
        i = i + 1;
    }
    if i < list.len() && !str_less(item, list[i].as_str()) {
        proof {
            assert(old_views[i as int] == list@[i as int]@);
            lemma_str_lt_order(old_views[i as int], item@, item@);
            assert(old_views[i as int] == item@);
            assert(old_views.contains(item@));
        }
        return;
    }
    proof {
        if i < list.len() {
            assert(old_views[i as int] == list@[i as int]@);
        }
    }
    let ghost old_list = list@;
    list.insert(i, String::from_str(item));
    proof {
        let nv = string_views(list@);
        assert(list@ == old_list.insert(i as int, list@[i as int]));
        assert(nv =~= old_views.insert(i as int, item@));
        assert forall|a: int, b: int| 0 <= a < b < nv.len() implies str_lt(
            #[trigger] nv[a],
            #[trigger] nv[b],
        ) by {
            if b < i {
                assert(nv[a] == old_views[a] && nv[b] == old_views[b]);
            } else if b == i {
                assert(nv[a] == old_views[a]);
            } else if a > i {
                assert(nv[a] == old_views[a - 1] && nv[b] == old_views[b - 1]);
            } else if a == i {
                assert(nv[b] == old_views[b - 1]);
                if b - 1 > i {
                    assert(str_lt(old_views[i as int], old_views[b - 1]));
                    lemma_str_lt_order(item@, old_views[i as int], old_views[b - 1]);
                }
            } else {
                assert(nv[a] == old_views[a] && nv[b] == old_views[b - 1]);
                lemma_str_lt_order(old_views[a], item@, old_views[b - 1]);
                if b - 1 > i {
                    assert(str_lt(old_views[i as int], old_views[b - 1]));
                    lemma_str_lt_order(item@, old_views[i as int], old_views[b - 1]);
                }
            }
        }
        assert forall|x: Seq<char>| nv.contains(x) <==> (old_views.contains(x) || x == item@) by {
            if nv.contains(x) {
                let k = choose|k: int| 0 <= k < nv.len() && nv[k] == x;
                if k < i {
                    assert(old_views[k] == x);
                } else if k > i {
                    assert(old_views[k - 1] == x);
                }
            }
            if old_views.contains(x) {
                let k = choose|k: int| 0 <= k < old_views.len() && old_views[k] == x;
                if k < i {
                    assert(nv[k] == x);
                } else {
                    assert(nv[k + 1] == x);
                }
            }
            if x == item@ {
                assert(nv[i as int] == x);
            }
        }
    }
}

} // verus!

verus! {

/// Every item of `items`, each between `before` and `after`, one after another.
pub open spec fn wrap_each(items: Seq<Seq<char>>, before: Seq<char>, after: Seq<char>) -> Seq<char>
    decreases items.len(),
{
    if items.len() == 0 {
        Seq::empty()
    } else {
        wrap_each(items.drop_last(), before, after) + before + items.last() + after
    }
}

/// `n` spaces.
pub open spec fn spaces(n: nat) -> Seq<char> {
    Seq::new(n, |i: int| ' ')
}

/// `s` left-aligned in a field of `width` characters, as `{:<width}` prints it.
pub open spec fn pad(s: Seq<char>, width: nat) -> Seq<char> {
    if s.len() < width {
        s + spaces((width - s.len()) as nat)
    } else {
        s
    }
}

/// Appends every item of `items`, each between `before` and `after`.
pub fn append_each(out: &mut String, items: &Vec<String>, before: &str, after: &str)
    ensures
        final(out)@ == old(out)@ + wrap_each(string_views(items@), before@, after@),
{
    let ghost start = out@;
    let mut i: usize = 0;
    while i < items.len()
        invariant
            i <= items@.len(),
            out@ == start + wrap_each(string_views(items@.take(i as int)), before@, after@),
        decreases items.len() - i,
    {
        let ghost pre = string_views(items@.take(i as int));
        let ghost post = string_views(items@.take(i as int + 1));
        assert(post =~= pre.push(items@[i as int]@));
        assert(post.drop_last() =~= pre);
        out.append(before);
        out.append(items[i].as_str());
        out.append(after);
        assert(out@ =~= start + wrap_each(post, before@, after@));
        i = i + 1;
    }
    assert(items@.take(items@.len() as int) =~= items@);
}

/// Appends `s` left-aligned in a field of `width` characters.
pub fn append_padded(out: &mut String, s: &str, width: usize)
    ensures
        final(out)@ == old(out)@ + pad(s@, width as nat),
{
    let ghost start = out@;
    out.append(s);
    let n = s.unicode_len();
    if n < width {
        let mut k: usize = n;
        while k < width
            invariant
                n <= k <= width,
                n == s@.len(),
                out@ == start + s@ + spaces((k - n) as nat),
            decreases width - k,
        {
            push_char(out, ' ');
            assert(spaces((k + 1 - n) as nat) =~= spaces((k - n) as nat).push(' '));
            k = k + 1;
        }
    }
    assert(out@ =~= start + pad(s@, width as nat));
}

} // verus!

verus! {

/// A numeral without its optional leading `+`.
pub open spec fn numeral_digits(s: Seq<char>) -> Seq<char> {
    if s.len() > 0 && s[0] == '+' {
        s.drop_first()
    } else {
        s
    }
}

/// Whether every character is an ASCII digit.
pub open spec fn all_digits(d: Seq<char>) -> bool {
    forall|k: int| 0 <= k < d.len() ==> is_digit(#[trigger] d[k])
}

/// The number a decimal numeral spells, as `str::parse` reads an unsigned integer: an optional
/// `+`, then one or more ASCII digits and nothing else.
pub open spec fn numeral_value(s: Seq<char>) -> Option<nat> {
    let digits = numeral_digits(s);
    if digits.len() > 0 && all_digits(digits) {
        Some(digits_value(digits) as nat)
    } else {
        None
    }
}

/// `str::parse::<u64>` / `str::parse::<usize>` with `max` the type's largest value: the
/// numeral's value when it is one and fits.
pub open spec fn parsed_unsigned(s: Seq<char>, max: nat) -> Option<nat> {
    match numeral_value(s) {
        Some(v) => if v <= max {
            Some(v)
        } else {
            None
        },
        None => None,
    }
}

/// A run of digits is worth at least any of its prefixes.
proof fn lemma_digits_value_prefix(s: Seq<char>, i: int)
    requires
        0 <= i <= s.len(),
        forall|k: int| 0 <= k < s.len() ==> is_digit(#[trigger] s[k]),
    ensures
        0 <= digits_value(s.take(i)) <= digits_value(s),
    decreases s.len(),
{
    if s.len() > 0 {
        let t = s.drop_last();
        assert forall|k: int| 0 <= k < t.len() implies is_digit(#[trigger] t[k]) by {
            assert(t[k] == s[k]);
        }
        if i < s.len() {
            assert(s.take(i) =~= t.take(i));
            lemma_digits_value_prefix(t, i);
        } else {
            assert(s.take(i) =~= s);
            lemma_digits_value_prefix(t, t.len() as int);
            assert(t.take(t.len() as int) =~= t);
        }
    } else {
        assert(s.take(i) =~= s);
    }
}

/// Parses an unsigned decimal numeral no larger than `max`.
pub fn parse_unsigned(s: &str, max: u64) -> (r: Option<u64>)
    ensures
        match parsed_unsigned(s@, max as nat) {
            Some(v) => r == Some(v as u64),
            None => r is None,
        },
{
    let chars = chars_of(s);
    let start: usize = if chars.len() > 0 && chars[0] == '+' {
        1
    } else {
        0
    };
    let ghost digits = numeral_digits(s@);
    assert(digits =~= chars@.skip(start as int));
    if start >= chars.len() {
        return None;
    }
    let mut i: usize = start;
    while i < chars.len()
        invariant
            start <= i <= chars@.len(),
            chars@ == s@,
            digits == chars@.skip(start as int),
            digits == numeral_digits(s@),
            forall|k: int| start <= k < i ==> is_digit(#[trigger] chars@[k]),
        decreases chars.len() - i,
    {
        if !('0' <= chars[i] && chars[i] <= '9') {
            assert(!is_digit(digits[i - start]));
            assert(numeral_value(s@) is None);
            return None;
        }
        i = i + 1;
    }
    assert forall|k: int| 0 <= k < digits.len() implies is_digit(#[trigger] digits[k]) by {
        assert(digits[k] == chars@[k + start]);
    }
    let mut value: u64 = 0;
    let mut j: usize = start;
    while j < chars.len()
        invariant
            start <= j <= chars@.len(),
            chars@ == s@,
            digits == chars@.skip(start as int),
            digits == numeral_digits(s@),
            forall|k: int| 0 <= k < digits.len() ==> is_digit(#[trigger] digits[k]),
            value == digits_value(digits.take(j - start)),
            value <= max,
        decreases chars.len() - j,
    {
        assert(digits[j - start] == chars@[j as int]);
        assert(is_digit(chars@[j as int]));
        let d: u64 = (chars[j] as u32 - '0' as u32) as u64;
        assert(digits.take(j - start + 1).drop_last() =~= digits.take(j - start));
        if d > max || value > (max - d) / 10 {
            proof {
                assert(digits_value(digits.take(j - start + 1)) == value * 10 + d);
                if d <= max {
                    assert(value * 10 + d > max) by (nonlinear_arith)
                        requires
                            value > (max - d) / 10,
                            d <= max,
                    ;
                }
                lemma_digits_value_prefix(digits, j - start + 1);
            }
            return None;
        }
        assert(value * 10 + d <= max) by (nonlinear_arith)
            requires
                value <= (max - d) / 10,
                d <= 9,
        ;
        value = value * 10 + d;
        j = j + 1;
    }
    assert(digits.take(digits.len() as int) =~= digits);
    Some(value)
}

} // verus!
