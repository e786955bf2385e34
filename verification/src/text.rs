//! Texts: numbers in decimal, lists of names, white space, and cuts by bytes.
use vstd::prelude::*;
use vstd::utf8::*;

verus! {

/// `String::push`: the character goes to the end, everything before it stays.
pub assume_specification[ String::push ](s: &mut String, c: char)
    ensures
        final(s)@ == old(s)@.push(c),
;

/// `String::pop`: takes the last character off; an empty string stays empty.
pub assume_specification[ String::pop ](s: &mut String) -> (c: Option<char>)
    ensures
        match c {
            Some(last) => old(s)@.len() > 0 && last == old(s)@.last() && final(s)@
                == old(s)@.drop_last(),
            None => old(s)@.len() == 0 && final(s)@ == old(s)@,
        },
;

/// The decimal digits of `n`, most significant first, without leading zeros.
pub open spec fn decimal(n: nat) -> Seq<char>
    decreases n,
{
    if n < 10 {
        seq![digit_char(n)]
    } else {
        decimal(n / 10).push(digit_char(n % 10))
    }
}

/// The decimal digit of value `d`.
pub open spec fn digit_char(d: nat) -> char {
    if d == 0 { '0' } else if d == 1 { '1' } else if d == 2 { '2' } else if d == 3 { '3' }
    else if d == 4 { '4' } else if d == 5 { '5' } else if d == 6 { '6' } else if d == 7 { '7' }
    else if d == 8 { '8' } else { '9' }
}

fn digit(d: u64) -> (c: char)
    requires
        d < 10,
    ensures
        c == digit_char(d as nat),
{
    if d == 0 { '0' } else if d == 1 { '1' } else if d == 2 { '2' } else if d == 3 { '3' }
    else if d == 4 { '4' } else if d == 5 { '5' } else if d == 6 { '6' } else if d == 7 { '7' }
    else if d == 8 { '8' } else { '9' }
}

/// Writes `n` in decimal.
pub fn decimal_text(n: u64) -> (text: String)
    ensures
        text@ == decimal(n as nat),
    decreases n,
{
    if n < 10 {
        let mut text = String::new();
        text.push(digit(n));
        assert(text@ =~= decimal(n as nat));
        text
    } else {
        let mut text = decimal_text(n / 10);
        text.push(digit(n % 10));
        text
    }
}

/// Two texts in a row.
pub fn concat2(first: &str, second: &str) -> (whole: String)
    ensures
        whole@ == first@ + second@,
{
    let mut whole = first.to_owned();
    whole.append(second);
    whole
}

/// Three texts in a row.
pub fn concat3(first: &str, second: &str, third: &str) -> (whole: String)
    ensures
        whole@ == first@ + second@ + third@,
{
    let mut whole = concat2(first, second);
    whole.append(third);
    whole
}

/// The texts of some strings.
pub open spec fn texts(strings: Seq<String>) -> Seq<Seq<char>> {
    strings.map_values(|s: String| s@)
}

/// The text of a string that may be missing.
pub open spec fn maybe(string: Option<String>) -> Option<Seq<char>> {
    match string {
        Some(s) => Some(s@),
        None => None,
    }
}

/// Copies some strings.
pub fn copy_strings(strings: &Vec<String>) -> (copy: Vec<String>)
    ensures
        texts(copy@) == texts(strings@),
{
    let mut copy: Vec<String> = Vec::new();
    let mut i: usize = 0;
    while i < strings.len()
        invariant
            i <= strings@.len(),
            copy@.len() == i,
            forall|j: int| 0 <= j < i ==> (#[trigger] copy@[j])@ == strings@[j]@,
        decreases strings@.len() - i,
    {
        copy.push(strings[i].clone());
        i = i + 1;
    }
    assert(texts(copy@) =~= texts(strings@));
    copy
}

/// Whether `name` is among the strings.
pub fn is_among(strings: &Vec<String>, name: &String) -> (found: bool)
    ensures
        found == texts(strings@).contains(name@),
{
    let mut i: usize = 0;
    while i < strings.len()
        invariant
            i <= strings@.len(),
            forall|j: int| 0 <= j < i ==> texts(strings@)[j] != name@,
        decreases strings@.len() - i,
    {
        if strings[i] == *name {
            assert(texts(strings@)[i as int] == name@);
            return true;
        }
        i = i + 1;
    }
    false
}

/// `list` without `name`, the rest in the same order.
pub open spec fn without(list: Seq<Seq<char>>, name: Seq<char>) -> Seq<Seq<char>>
    decreases list.len(),
{
    if list.len() == 0 {
        list
    } else if list.last() == name {
        without(list.drop_last(), name)
    } else {
        without(list.drop_last(), name).push(list.last())
    }
}

/// The strings other than `name`, in the same order.
pub fn strings_without(strings: &Vec<String>, name: &String) -> (kept: Vec<String>)
    ensures
        texts(kept@) == without(texts(strings@), name@),
{
    let mut kept: Vec<String> = Vec::new();
    let mut i: usize = 0;
    assert(texts(kept@) =~= without(texts(strings@).take(0), name@));
    while i < strings.len()
        invariant
            i <= strings@.len(),
            texts(kept@) == without(texts(strings@).take(i as int), name@),
        decreases strings@.len() - i,
    {
        assert(texts(strings@).take(i + 1).drop_last() =~= texts(strings@).take(i as int));
        let ghost before = kept@;
        if strings[i] != *name {
            kept.push(strings[i].clone());
            assert(texts(kept@) =~= texts(before).push(strings@[i as int]@));
        }
        i = i + 1;
    }
    assert(texts(strings@).take(i as int) =~= texts(strings@));
    kept
}

/// The strings and `name` behind them.
pub fn strings_with(strings: &Vec<String>, name: &String) -> (longer: Vec<String>)
    ensures
        texts(longer@) == texts(strings@).push(name@),
{
    let mut longer = copy_strings(strings);
    let ghost before = longer@;
    longer.push(name.clone());
    assert(texts(longer@) =~= texts(before).push(name@));
    longer
}

/// What is left without a name: the other members, each as often and in the same order as before.
pub proof fn lemma_without(list: Seq<Seq<char>>, name: Seq<char>)
    ensures
        forall|other: Seq<char>| #[trigger]
            without(list, name).contains(other) <==> (list.contains(other) && other != name),
        list.no_duplicates() ==> without(list, name).no_duplicates(),
        !list.contains(name) ==> without(list, name) == list,
        without(list, name).len() <= list.len(),
    decreases list.len(),
{
    if list.len() > 0 {
        let init = list.drop_last();
        lemma_without(init, name);
        assert(list =~= init.push(list.last()));
        assert forall|other: Seq<char>| #[trigger]
            without(list, name).contains(other) <==> (list.contains(other) && other != name) by {
            if list.contains(other) && other != name {
                let i = choose|i: int| 0 <= i < list.len() && list[i] == other;
                if i < init.len() {
                    assert(init[i] == other);
                    assert(without(init, name).contains(other));
                    let k = choose|k: int|
                        0 <= k < without(init, name).len() && without(init, name)[k] == other;
                    assert(without(list, name)[k] == other);
                } else {
                    assert(without(list, name).last() == other);
                }
            }
            if without(list, name).contains(other) {
                let k = choose|k: int|
                    0 <= k < without(list, name).len() && without(list, name)[k] == other;
                if k < without(init, name).len() {
                    assert(without(init, name)[k] == other);
                    assert(without(init, name).contains(other));
                    let i = choose|i: int| 0 <= i < init.len() && init[i] == other;
                    assert(list[i] == other);
                } else {
                    assert(list[list.len() - 1] == other);
                }
            }
        }
        if list.no_duplicates() {
            assert(init.no_duplicates());
            if list.last() != name {
                assert(!init.contains(list.last()));
                assert(!without(init, name).contains(list.last()));
            }
        }
        if !list.contains(name) {
            assert(list.contains(list.last()));
            assert(!init.contains(name)) by {
                if init.contains(name) {
                    let i = choose|i: int| 0 <= i < init.len() && init[i] == name;
                    assert(list[i] == name);
                }
            }
        }
    }
}

/// What is left without a name is exactly the list with that name filtered out.
pub proof fn law_without_filters(list: Seq<Seq<char>>, name: Seq<char>)
    ensures
        without(list, name) == list.filter(|other: Seq<char>| other != name),
    decreases list.len(),
{
    reveal(Seq::filter);
    if list.len() > 0 {
        law_without_filters(list.drop_last(), name);
    }
}

/// The white space of Unicode.
pub open spec fn white_space(c: char) -> bool {
    ||| '\u{9}' <= c <= '\u{d}'
    ||| c == ' '
    ||| c == '\u{85}'
    ||| c == '\u{a0}'
    ||| c == '\u{1680}'
    ||| '\u{2000}' <= c <= '\u{200a}'
    ||| c == '\u{2028}'
    ||| c == '\u{2029}'
    ||| c == '\u{202f}'
    ||| c == '\u{205f}'
    ||| c == '\u{3000}'
}

/// `char::is_whitespace`: whether the character has the Unicode property `White_Space`, which is
/// that of the 25 characters above.
pub assume_specification[ char::is_whitespace ](c: char) -> (white: bool)
    ensures
        white == white_space(c),
;

pub open spec fn trim_start(s: Seq<char>) -> Seq<char>
    decreases s.len(),
{
    if s.len() > 0 && white_space(s[0]) {
        trim_start(s.drop_first())
    } else {
        s
    }
}

pub open spec fn trim_end(s: Seq<char>) -> Seq<char>
    decreases s.len(),
{
    if s.len() > 0 && white_space(s.last()) {
        trim_end(s.drop_last())
    } else {
        s
    }
}

/// A text without the white space at its ends.
pub open spec fn trimmed(s: Seq<char>) -> Seq<char> {
    trim_end(trim_start(s))
}

/// Takes the white space off both ends.
pub fn trim(s: &str) -> (out: String)
    ensures
        out@ == trimmed(s@),
{
    let len: usize = s.unicode_len();
    let mut from: usize = 0;
    assert(s@.subrange(0, len as int) =~= s@);
    while from < len && s.get_char(from).is_whitespace()
        invariant
            from <= len,
            len == s@.len(),
            trim_start(s@) == trim_start(s@.subrange(from as int, len as int)),
        decreases len - from,
    {
        assert(s@.subrange(from as int, len as int).drop_first() =~= s@.subrange(
            from + 1,
            len as int,
        ));
        from = from + 1;
    }
    let mut to: usize = len;
    while to > from && s.get_char(to - 1).is_whitespace()
        invariant
            from <= to <= len,
            len == s@.len(),
            trimmed(s@) == trim_end(s@.subrange(from as int, to as int)),
        decreases to - from,
    {
        assert(s@.subrange(from as int, to as int).drop_last() =~= s@.subrange(
            from as int,
            to - 1,
        ));
        to = to - 1;
    }
    s.substring_char(from, to).to_owned()
}

/// The number of bytes in the first `n` bytes of a text: all of them, if it has fewer.
pub open spec fn head_len(s: Seq<char>, n: nat) -> int {
    if encode_utf8(s).len() < n {
        encode_utf8(s).len() as int
    } else {
        n as int
    }
}

/// Whether no character reaches over the end of the first `n` bytes.
pub open spec fn cuts_cleanly(s: Seq<char>, n: nat) -> bool {
    is_char_boundary(encode_utf8(s), head_len(s, n))
}

/// The text of the first `n` bytes.
pub open spec fn byte_head(s: Seq<char>, n: nat) -> Seq<char> {
    decode_utf8(encode_utf8(s).take(head_len(s, n)))
}

fn head_len_of(s: &str, n: usize) -> (len: usize)
    ensures
        len == head_len(s@, n as nat),
{
    let whole: usize = s.as_bytes().len();
    if whole < n {
        whole
    } else {
        n
    }
}

/// Whether no character reaches over the end of the first `n` bytes.
pub fn can_cut(s: &str, n: usize) -> (clean: bool)
    ensures
        clean == cuts_cleanly(s@, n as nat),
{
    s.is_char_boundary(head_len_of(s, n))
}

/// The text of the first `n` bytes.
pub fn take_bytes(s: &str, n: usize) -> (head: String)
    requires
        cuts_cleanly(s@, n as nat),
    ensures
        head@ == byte_head(s@, n as nat),
{
    let (head, _) = s.split_at(head_len_of(s, n));
    proof {
        encode_utf8_decode_utf8(head@);
        assert(encode_utf8(head@) =~= encode_utf8(s@).take(head_len(s@, n as nat)));
    }
    head.to_owned()
}

/// Whether a text holds another.
pub open spec fn occurs_in(part: Seq<char>, whole: Seq<char>) -> bool {
    exists|at: int|
        0 <= at <= whole.len() - part.len() && #[trigger] whole.subrange(at, at + part.len())
            == part
}

pub proof fn lemma_occurs(before: Seq<char>, part: Seq<char>, after: Seq<char>)
    ensures
        occurs_in(part, before + part + after),
{
    let whole = before + part + after;
    let at = before.len() as int;
    assert(whole.subrange(at, at + part.len()) =~= part);
}

pub proof fn lemma_occurs_second(
    a: Seq<char>,
    b: Seq<char>,
    c: Seq<char>,
    d: Seq<char>,
    e: Seq<char>,
)
    ensures
        occurs_in(b, a + b + c + d + e),
{
    let whole = a + b + c + d + e;
    let at = a.len() as int;
    assert(whole.subrange(at, at + b.len()) =~= b);
}

pub proof fn lemma_occurs_last(
    a: Seq<char>,
    b: Seq<char>,
    c: Seq<char>,
    d: Seq<char>,
    e: Seq<char>,
)
    ensures
        occurs_in(d + e, a + b + c + d + e),
{
    let whole = a + b + c + d + e;
    let part = d + e;
    let at = (a + b + c).len() as int;
    assert(whole.subrange(at, at + part.len()) =~= part);
}

/// Whether a text is white space alone.
pub open spec fn is_blank(s: Seq<char>) -> bool {
    forall|i: int| 0 <= i < s.len() ==> white_space(#[trigger] s[i])
}

proof fn lemma_trim_start(s: Seq<char>) -> (n: int)
    ensures
        0 <= n <= s.len(),
        is_blank(s.take(n)),
        trim_start(s) == s.skip(n),
        n < s.len() ==> !white_space(s[n]),
    decreases s.len(),
{
    if s.len() > 0 && white_space(s[0]) {
        let rest = s.drop_first();
        let n = lemma_trim_start(rest);
        assert(s.skip(n + 1) =~= rest.skip(n));
        assert forall|i: int| 0 <= i < n + 1 implies white_space(#[trigger] s.take(n + 1)[i]) by {
            if i > 0 {
                assert(rest.take(n)[i - 1] == s[i]);
            }
        }
        n + 1
    } else {
        assert(s.skip(0) =~= s);
        0
    }
}

proof fn lemma_trim_end(s: Seq<char>) -> (n: int)
    ensures
        0 <= n <= s.len(),
        is_blank(s.skip(n)),
        trim_end(s) == s.take(n),
        n > 0 ==> !white_space(s[n - 1]),
    decreases s.len(),
{
    if s.len() > 0 && white_space(s.last()) {
        let rest = s.drop_last();
        let n = lemma_trim_end(rest);
        assert(s.take(n) =~= rest.take(n));
        assert forall|i: int| 0 <= i < s.len() - n implies white_space(#[trigger] s.skip(n)[i]) by {
            if i < rest.len() - n {
                assert(rest.skip(n)[i] == s.skip(n)[i]);
            }
        }
        n
    } else {
        assert(s.take(s.len() as int) =~= s);
        s.len() as int
    }
}

/// Trimming takes off white space at the ends and nothing else: what it leaves neither begins nor
/// ends with white space, and is the text between two blanks.
pub proof fn law_trim(s: Seq<char>)
    ensures
        exists|from: int, to: int|
            0 <= from <= to <= s.len() && trimmed(s) == #[trigger] s.subrange(from, to)
                && is_blank(s.take(from)) && is_blank(s.skip(to)),
        trimmed(s).len() > 0 ==> !white_space(trimmed(s)[0]) && !white_space(trimmed(s).last()),
{
    let from = lemma_trim_start(s);
    let rest = s.skip(from);
    let n = lemma_trim_end(rest);
    let to = from + n;
    assert(s.subrange(from, to) =~= rest.take(n));
    assert(s.skip(to) =~= rest.skip(n));
    assert(trimmed(s) == s.subrange(from, to));
}

/// The number that some decimal digits stand for.
pub open spec fn number_of(digits: Seq<char>) -> int
    decreases digits.len(),
{
    if digits.len() == 0 {
        0
    } else {
        number_of(digits.drop_last()) * 10 + (digits.last() as int - '0' as int)
    }
}

/// A number is written with decimal digits alone, without a leading zero unless it is zero, and
/// reading the digits gives the number back.
pub proof fn law_decimal(n: nat)
    ensures
        number_of(decimal(n)) == n,
        decimal(n).len() > 0,
        forall|i: int| 0 <= i < decimal(n).len() ==> '0' <= #[trigger] decimal(n)[i] <= '9',
        n > 0 ==> decimal(n)[0] != '0',
    decreases n,
{
    if n < 10 {
        assert(decimal(n).drop_last() =~= Seq::<char>::empty());
        assert(number_of(Seq::<char>::empty()) == 0);
    } else {
        law_decimal(n / 10);
        assert(decimal(n).drop_last() =~= decimal(n / 10));
    }
}

/// The head of a text is the text of its first bytes: all of them, or as many as were asked for.
pub proof fn law_byte_head(s: Seq<char>, n: nat)
    requires
        cuts_cleanly(s, n),
    ensures
        encode_utf8(byte_head(s, n)) == encode_utf8(s).take(
            if encode_utf8(s).len() < n {
                encode_utf8(s).len() as int
            } else {
                n as int
            },
        ),
        encode_utf8(s).len() <= n ==> byte_head(s, n) == s,
{
    let bytes = encode_utf8(s);
    let len = head_len(s, n);
    encode_utf8_valid_utf8(s);
    valid_utf8_split(bytes, len);
    decode_utf8_encode_utf8(bytes.take(len));
    if bytes.len() <= n {
        assert(bytes.take(len) =~= bytes);
        encode_utf8_decode_utf8(s);
    }
}

}
