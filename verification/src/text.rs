//! Character and string helpers shared by the report modules: whitespace
//! trimming and joining of path segments, each with its mathematical model
//! over sequences of characters.

use vstd::prelude::*;

verus! {

/// Whether `c` carries the Unicode `White_Space` property.
pub open spec fn is_white_space(c: char) -> bool {
    let n = c as u32;
    ||| 0x09 <= n <= 0x0D
    ||| n == 0x20
    ||| n == 0x85
    ||| n == 0xA0
    ||| n == 0x1680
    ||| 0x2000 <= n <= 0x200A
    ||| n == 0x2028
    ||| n == 0x2029
    ||| n == 0x202F
    ||| n == 0x205F
    ||| n == 0x3000
}

/// `char::is_whitespace` of the standard library, which is documented to
/// answer whether the character has the `White_Space` property. The contract
/// spells that property out as the list of its code points.
pub assume_specification[ char::is_whitespace ](c: char) -> (b: bool)
    ensures
        b == is_white_space(c),
;

/// `String::push` of the standard library, which is documented to append the
/// given character to the end of the string.
pub assume_specification[ String::push ](s: &mut String, ch: char)
    ensures
        final(s)@ == old(s)@.push(ch),
;

/// `s` without its leading whitespace.
pub open spec fn trim_start(s: Seq<char>) -> Seq<char>
    decreases s.len(),
{
    if s.len() > 0 && is_white_space(s.first()) {
        trim_start(s.drop_first())
    } else {
        s
    }
}

/// `s` without its trailing whitespace.
pub open spec fn trim_end(s: Seq<char>) -> Seq<char>
    decreases s.len(),
{
    if s.len() > 0 && is_white_space(s.last()) {
        trim_end(s.drop_last())
    } else {
        s
    }
}

/// `s` without leading and trailing whitespace.
pub open spec fn trimmed(s: Seq<char>) -> Seq<char> {
    trim_end(trim_start(s))
}

/// Whether every character of `s` is whitespace.
pub open spec fn is_blank(s: Seq<char>) -> bool {
    forall|i: int| 0 <= i < s.len() ==> is_white_space(#[trigger] s[i])
}

/// The views of a sequence of strings.
pub open spec fn texts(parts: Seq<String>) -> Seq<Seq<char>> {
    parts.map_values(|part: String| part@)
}

/// The parts in order, with `separator` between each two neighbours.
pub open spec fn joined(parts: Seq<Seq<char>>, separator: Seq<char>) -> Seq<char>
    decreases parts.len(),
{
    if parts.len() == 0 {
        Seq::empty()
    } else if parts.len() == 1 {
        parts.last()
    } else {
        joined(parts.drop_last(), separator) + separator + parts.last()
    }
}

/// Leading whitespace ends at the first character that is none.
pub proof fn lemma_trim_start_skips(s: Seq<char>, k: int)
    requires
        0 <= k <= s.len(),
        forall|j: int| 0 <= j < k ==> is_white_space(#[trigger] s[j]),
        k < s.len() ==> !is_white_space(s[k]),
    ensures
        trim_start(s) == s.skip(k),
    decreases k,
{
    if k == 0 {
        assert(s.skip(0) =~= s);
    } else {
        let rest = s.drop_first();
        assert forall|j: int| 0 <= j < k - 1 implies is_white_space(#[trigger] rest[j]) by {
            assert(rest[j] == s[j + 1]);
        }
        lemma_trim_start_skips(rest, k - 1);
        assert(rest.skip(k - 1) =~= s.skip(k));
    }
}

/// Trailing whitespace starts after the last character that is none.
pub proof fn lemma_trim_end_takes(s: Seq<char>, k: int)
    requires
        0 <= k <= s.len(),
        forall|j: int| k <= j < s.len() ==> is_white_space(#[trigger] s[j]),
        0 < k ==> !is_white_space(s[k - 1]),
    ensures
        trim_end(s) == s.take(k),
    decreases s.len() - k,
{
    if k == s.len() {
        assert(s.take(k) =~= s);
    } else {
        let rest = s.drop_last();
        lemma_trim_end_takes(rest, k);
        assert(rest.take(k) =~= s.take(k));
    }
}

/// Dropping leading whitespace keeps a text blank or not blank.
pub proof fn lemma_trim_start_keeps_blank(s: Seq<char>)
    ensures
        is_blank(trim_start(s)) == is_blank(s),
    decreases s.len(),
{
    if s.len() > 0 && is_white_space(s.first()) {
        let rest = s.drop_first();
        lemma_trim_start_keeps_blank(rest);
        if is_blank(s) {
            assert forall|i: int| 0 <= i < rest.len() implies is_white_space(#[trigger] rest[i]) by {
                assert(rest[i] == s[i + 1]);
            }
        }
        if is_blank(rest) {
            assert forall|i: int| 0 <= i < s.len() implies is_white_space(#[trigger] s[i]) by {
                if i > 0 {
                    assert(s[i] == rest[i - 1]);
                }
            }
        }
    }
}

/// Dropping trailing whitespace leaves nothing exactly of a blank text.
pub proof fn lemma_trim_end_empty_iff_blank(s: Seq<char>)
    ensures
        trim_end(s).len() == 0 <==> is_blank(s),
    decreases s.len(),
{
    if s.len() > 0 && is_white_space(s.last()) {
        let rest = s.drop_last();
        lemma_trim_end_empty_iff_blank(rest);
        if is_blank(s) {
            assert forall|i: int| 0 <= i < rest.len() implies is_white_space(#[trigger] rest[i]) by {
                assert(rest[i] == s[i]);
            }
        }
        if is_blank(rest) {
            assert forall|i: int| 0 <= i < s.len() implies is_white_space(#[trigger] s[i]) by {
                if i < rest.len() {
                    assert(s[i] == rest[i]);
                }
            }
        }
    } else if s.len() > 0 {
        assert(!is_white_space(s[s.len() - 1]));
    }
}

/// A text trims to nothing exactly when it is blank.
pub proof fn lemma_trimmed_empty_iff_blank(s: Seq<char>)
    ensures
        trimmed(s).len() == 0 <==> is_blank(s),
{
    lemma_trim_start_keeps_blank(s);
    lemma_trim_end_empty_iff_blank(trim_start(s));
}

/// The text without leading and trailing whitespace, as `str::trim` gives it.
pub fn trim(s: &str) -> (r: &str)
    ensures
        r@ == trimmed(s@),
{
    let n: usize = s.unicode_len();
    let mut first: usize = 0;
    let mut end: usize = 0;
    let mut i: usize = 0;
    for c in it: s.chars()
        invariant
            it.seq() == s@,
            n == s@.len(),
            i == it.index(),
            i <= n,
            end <= i,
            end == 0 ==> first == 0,
            end > 0 ==> first < end,
            end > 0 ==> !is_white_space(s@[first as int]) && !is_white_space(s@[end - 1]),
            forall|j: int| 0 <= j < i && (end == 0 || j < first) ==> is_white_space(#[trigger] s@[j]),
            forall|j: int| end <= j < i ==> is_white_space(#[trigger] s@[j]),
    {
        if !c.is_whitespace() {
            if end == 0 {
                first = i;
            }
            end = i + 1;
        }
        i = i + 1;
    }
    proof {
        if end == 0 {
            lemma_trim_start_skips(s@, n as int);
            assert(s@.skip(n as int) =~= Seq::<char>::empty());
            assert(s@.subrange(0, 0) =~= Seq::<char>::empty());
        } else {
            lemma_trim_start_skips(s@, first as int);
            let t = s@.skip(first as int);
            assert forall|j: int| end - first <= j < t.len() implies is_white_space(#[trigger] t[j]) by {
                assert(t[j] == s@[j + first]);
            }
            assert(t[end - first - 1] == s@[end - 1]);
            lemma_trim_end_takes(t, end - first);
            assert(t.take(end - first) =~= s@.subrange(first as int, end as int));
        }
    }
    s.substring_char(first, end)
}

/// The parts in order, with `separator` between each two neighbours.
pub fn join(parts: &Vec<String>, separator: &str) -> (r: String)
    ensures
        r@ == joined(texts(parts@), separator@),
{
    let mut out = String::new();
    let mut i: usize = 0;
    while i < parts.len()
        invariant
            i <= parts.len(),
            out@ == joined(texts(parts@).take(i as int), separator@),
        decreases parts.len() - i,
    {
        proof {
            let all = texts(parts@);
            assert(all.take(i + 1).drop_last() =~= all.take(i as int));
            assert(all.take(i + 1).last() == parts@[i as int]@);
            if i > 0 {
                assert(all.take(i as int).len() > 0);
            }
        }
        if i > 0 {
            out.append(separator);
        }
        out.append(parts[i].as_str());
        i = i + 1;
    }
    proof {
        assert(texts(parts@).take(parts.len() as int) =~= texts(parts@));
    }
    out
}

/// Whether `i` is the place of the first colon of `name`.
pub open spec fn is_first_colon(name: Seq<char>, i: int) -> bool {
    &&& 0 <= i < name.len()
    &&& name[i] == ':'
    &&& forall|j: int| 0 <= j < i ==> #[trigger] name[j] != ':'
}

/// The local part of a qualified name: what follows its first colon, and
/// all of the name where it holds none. quick-xml cuts the local name of a
/// tag in the same way.
pub open spec fn local_part(name: Seq<char>) -> Seq<char> {
    if exists|i: int| is_first_colon(name, i) {
        name.skip((choose|i: int| is_first_colon(name, i)) + 1)
    } else {
        name
    }
}

/// The local part of a qualified name.
pub fn local_part_of(name: &str) -> (local: &str)
    ensures
        local@ == local_part(name@),
{
    let n: usize = name.unicode_len();
    let mut start: usize = 0;
    let mut i: usize = 0;
    for c in it: name.chars()
        invariant
            it.seq() == name@,
            n == name@.len(),
            i == it.index(),
            i <= n,
            start <= i,
            start == 0 ==> forall|j: int| 0 <= j < i ==> #[trigger] name@[j] != ':',
            start > 0 ==> is_first_colon(name@, start - 1),
    {
        if start == 0 && c == ':' {
            start = i + 1;
        }
        i = i + 1;
    }
    proof {
        if start > 0 {
            let first = choose|k: int| is_first_colon(name@, k);
            if first < start - 1 {
                assert(name@[first] == ':');
            }
            if start - 1 < first {
                assert(name@[start - 1] == ':');
            }
            assert(name@.skip(start as int) =~= name@.subrange(start as int, n as int));
        } else {
            assert forall|k: int| !is_first_colon(name@, k) by {
                if 0 <= k < n {
                    assert(name@[k] != ':');
                }
            }
            assert(name@.subrange(0, n as int) =~= name@);
        }
    }
    name.substring_char(start, n)
}

/// The decimal digit of a number below ten.
pub open spec fn digit(d: nat) -> char {
    if d == 0 {
        '0'
    } else if d == 1 {
        '1'
    } else if d == 2 {
        '2'
    } else if d == 3 {
        '3'
    } else if d == 4 {
        '4'
    } else if d == 5 {
        '5'
    } else if d == 6 {
        '6'
    } else if d == 7 {
        '7'
    } else if d == 8 {
        '8'
    } else {
        '9'
    }
}

/// The number in decimal digits, without leading zeros.
pub open spec fn decimal(n: nat) -> Seq<char>
    decreases n,
{
    if n < 10 {
        seq![digit(n)]
    } else {
        decimal(n / 10).push(digit(n % 10))
    }
}

/// The decimal digit of a number below ten.
fn digit_of(d: usize) -> (c: char)
    requires
        d < 10,
    ensures
        c == digit(d as nat),
{
    if d == 0 {
        '0'
    } else if d == 1 {
        '1'
    } else if d == 2 {
        '2'
    } else if d == 3 {
        '3'
    } else if d == 4 {
        '4'
    } else if d == 5 {
        '5'
    } else if d == 6 {
        '6'
    } else if d == 7 {
        '7'
    } else if d == 8 {
        '8'
    } else {
        '9'
    }
}

/// The number in decimal digits, without leading zeros.
pub fn decimal_of(n: usize) -> (text: String)
    ensures
        text@ == decimal(n as nat),
    decreases n,
{
    let mut text = if n < 10 {
        String::new()
    } else {
        decimal_of(n / 10)
    };
    text.push(digit_of(n % 10));
    proof {
        if n < 10 {
            assert(text@ =~= seq![digit(n as nat)]);
        }
    }
    text
}

} // verus!
