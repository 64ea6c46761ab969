//! Text: trimming, joining, ordering and the digits of a number.

use vstd::prelude::*;

verus! {

// ---------------------------------------------------------------------------
// Outside functions
// ---------------------------------------------------------------------------

/// Whether a character belongs to ASCII.
pub open spec fn is_ascii(c: char) -> bool {
    (c as int) < 128
}

/// The upper case of a character of ASCII: only the letters `a` to `z` change.
pub open spec fn ascii_upper(c: char) -> char {
    if 'a' <= c && c <= 'z' {
        ((c as int) - 32) as char
    } else {
        c
    }
}

/// The lower case of a character of ASCII: only the letters `A` to `Z` change.
pub open spec fn ascii_lower(c: char) -> char {
    if 'A' <= c && c <= 'Z' {
        ((c as int) + 32) as char
    } else {
        c
    }
}

/// What `char::to_uppercase` yields for a character beyond ASCII.
pub uninterp spec fn upper_of(c: char) -> Seq<char>;

/// The upper case of a character.
pub open spec fn upper_case(c: char) -> Seq<char> {
    if is_ascii(c) {
        seq![ascii_upper(c)]
    } else {
        upper_of(c)
    }
}

/// Calls `char::to_uppercase` and writes what it yields: of ASCII the letters `a`
/// to `z` change, and beyond ASCII the result depends on the character alone.
#[verifier::external_body]
fn upper(c: char) -> (r: String)
    ensures
        is_ascii(c) ==> r@ == seq![ascii_upper(c)],
        !is_ascii(c) ==> r@ == upper_of(c),
{
    c.to_uppercase().to_string()
}

/// What `str::to_lowercase` returns for a text that is not all ASCII.
pub uninterp spec fn lower_of(s: Seq<char>) -> Seq<char>;

/// Whether all of a text belongs to ASCII.
pub open spec fn all_ascii(s: Seq<char>) -> bool {
    forall|i: int| 0 <= i < s.len() ==> is_ascii(#[trigger] s[i])
}

/// The lower case of a text.
pub open spec fn lower_case(s: Seq<char>) -> Seq<char> {
    if all_ascii(s) {
        s.map_values(|c: char| ascii_lower(c))
    } else {
        lower_of(s)
    }
}

/// Calls `str::to_lowercase`: of ASCII the letters `A` to `Z` change, and beyond
/// ASCII the result depends on the text alone.
#[verifier::external_body]
pub(crate) fn lower(s: &str) -> (r: String)
    ensures
        all_ascii(s@) ==> r@ == s@.map_values(|c: char| ascii_lower(c)),
        !all_ascii(s@) ==> r@ == lower_of(s@),
{
    s.to_lowercase()
}

/// A text in quotes, with what cannot be printed escaped: what the `Debug`
/// form of a `str` shows.
pub uninterp spec fn quoted(s: Seq<char>) -> Seq<char>;

/// Writes the `Debug` form of a `str`; it depends on the text alone.
#[verifier::external_body]
pub(crate) fn quote(s: &str) -> (r: String)
    ensures
        r@ == quoted(s@),
{
    format!("{:?}", s)
}

/// The character of a hexadecimal digit, letters in lower case.
pub open spec fn hex_digit(d: int) -> char {
    if d < 10 {
        (48 + d) as char
    } else {
        (87 + d) as char
    }
}

/// The last `width` hexadecimal digits of a natural number.
pub open spec fn hex(n: nat, width: nat) -> Seq<char>
    decreases width,
{
    if width == 0 {
        Seq::empty()
    } else {
        hex(n / 16, (width - 1) as nat).push(hex_digit((n % 16) as int))
    }
}

/// The hyphenated form of an identifier: its 32 hexadecimal digits in groups of
/// eight, four, four, four and twelve.
pub open spec fn id_text(id: u128) -> Seq<char> {
    let n = id as nat;
    hex(n / 0x1_0000_0000_0000_0000_0000_0000, 8) + "-"@ + hex(
        n / 0x1_0000_0000_0000_0000_0000,
        4,
    ) + "-"@ + hex(n / 0x1_0000_0000_0000_0000, 4) + "-"@ + hex(n / 0x1_0000_0000_0000, 4) + "-"@
        + hex(n, 12)
}

/// Writes the `Display` form of `uuid::Uuid::from_u128(id)`: the digits of the
/// value in lower case, the most significant first, with four hyphens.
#[verifier::external_body]
pub(crate) fn show_id(id: u128) -> (r: String)
    ensures
        r@ == id_text(id),
{
    uuid::Uuid::from_u128(id).to_string()
}

// ---------------------------------------------------------------------------
// Joining
// ---------------------------------------------------------------------------

pub fn cat2(a: &str, b: &str) -> (r: String)
    ensures
        r@ == a@ + b@,
{
    a.to_owned().concat(b)
}

pub fn cat3(a: &str, b: &str, c: &str) -> (r: String)
    ensures
        r@ == a@ + b@ + c@,
{
    cat2(a, b).concat(c)
}

pub fn cat4(a: &str, b: &str, c: &str, d: &str) -> (r: String)
    ensures
        r@ == a@ + b@ + c@ + d@,
{
    cat3(a, b, c).concat(d)
}

pub fn cat5(a: &str, b: &str, c: &str, d: &str, e: &str) -> (r: String)
    ensures
        r@ == a@ + b@ + c@ + d@ + e@,
{
    cat4(a, b, c, d).concat(e)
}

pub fn cat6(a: &str, b: &str, c: &str, d: &str, e: &str, f: &str) -> (r: String)
    ensures
        r@ == a@ + b@ + c@ + d@ + e@ + f@,
{
    cat5(a, b, c, d, e).concat(f)
}

pub fn cat7(a: &str, b: &str, c: &str, d: &str, e: &str, f: &str, g: &str) -> (r: String)
    ensures
        r@ == a@ + b@ + c@ + d@ + e@ + f@ + g@,
{
    cat6(a, b, c, d, e, f).concat(g)
}

// ---------------------------------------------------------------------------
// Equality and order
// ---------------------------------------------------------------------------

/// Whether two texts hold the same characters.
pub fn same(a: &str, b: &str) -> (r: bool)
    ensures
        r == (a@ == b@),
{
    a.to_owned() == b.to_owned()
}

/// The order in which texts sort: by the first character in which they
/// differ, a text before its own extensions.
pub open spec fn before(a: Seq<char>, b: Seq<char>) -> bool
    decreases a.len(),
{
    if b.len() == 0 {
        false
    } else if a.len() == 0 {
        true
    } else if a[0] != b[0] {
        (a[0] as int) < (b[0] as int)
    } else {
        before(a.drop_first(), b.drop_first())
    }
}

/// The order of texts ranks them: of two different texts one stands before the
/// other, and not both; and what stands before a text that stands before
/// another stands before that one too.
pub proof fn lemma_before_ranks(a: Seq<char>, b: Seq<char>, c: Seq<char>)
    ensures
        before(a, b) ==> !before(b, a),
        !before(a, a),
        !before(a, b) && !before(b, a) ==> a == b,
        before(a, b) && before(b, c) ==> before(a, c),
    decreases a.len() + b.len() + c.len(),
{
    if a.len() > 0 && b.len() > 0 && c.len() > 0 {
        lemma_before_ranks(a.drop_first(), b.drop_first(), c.drop_first());
    } else if a.len() > 0 && b.len() > 0 {
        lemma_before_ranks(a.drop_first(), b.drop_first(), c);
    } else if a.len() > 0 {
        lemma_before_ranks(a.drop_first(), b, c);
    }
    if a.len() > 0 {
        assert(!before(a.drop_first(), a.drop_first()));
    }
    if !before(a, b) && !before(b, a) {
        if a.len() > 0 && b.len() > 0 {
            assert(a[0] == b[0]);
            assert(a =~= seq![a[0]] + a.drop_first());
            assert(b =~= seq![b[0]] + b.drop_first());
        } else {
            assert(a =~= b);
        }
    }
}

/// Whether `a` sorts strictly before `b`.
pub fn sorts_before(a: &str, b: &str) -> (r: bool)
    ensures
        r == before(a@, b@),
{
    let n: usize = a.unicode_len();
    let m: usize = b.unicode_len();
    let mut i: usize = 0;
    assert(a@.skip(0) =~= a@);
    assert(b@.skip(0) =~= b@);
    while i < n && i < m
        invariant
            i <= n,
            i <= m,
            n == a@.len(),
            m == b@.len(),
            before(a@, b@) == before(a@.skip(i as int), b@.skip(i as int)),
        decreases n - i,
    {
        let c: char = a.get_char(i);
        let d: char = b.get_char(i);
        if c != d {
            return (c as u32) < (d as u32);
        }
        assert(a@.skip(i as int).drop_first() =~= a@.skip(i + 1));
        assert(b@.skip(i as int).drop_first() =~= b@.skip(i + 1));
        i = i + 1;
    }
    i < m
}

// ---------------------------------------------------------------------------
// Trimming
// ---------------------------------------------------------------------------

/// Whether a character counts as white space: those with the Unicode property
/// `White_Space`.
pub open spec fn is_white(c: char) -> bool {
    let n = c as int;
    ||| 0x9 <= n <= 0xd
    ||| n == 0x20
    ||| n == 0x85
    ||| n == 0xa0
    ||| n == 0x1680
    ||| 0x2000 <= n <= 0x200a
    ||| n == 0x2028
    ||| n == 0x2029
    ||| n == 0x202f
    ||| n == 0x205f
    ||| n == 0x3000
}

fn white(c: char) -> (r: bool)
    ensures
        r == is_white(c),
{
    let n: u32 = c as u32;
    (0x9 <= n && n <= 0xd) || n == 0x20 || n == 0x85 || n == 0xa0 || n == 0x1680 || (0x2000 <= n && n
        <= 0x200a) || n == 0x2028 || n == 0x2029 || n == 0x202f || n == 0x205f || n == 0x3000
}

/// A text without the white space at its start.
pub open spec fn trimmed_start(s: Seq<char>) -> Seq<char>
    decreases s.len(),
{
    if s.len() > 0 && is_white(s[0]) {
        trimmed_start(s.drop_first())
    } else {
        s
    }
}

/// A text without the white space at its end.
pub open spec fn trimmed_end(s: Seq<char>) -> Seq<char>
    decreases s.len(),
{
    if s.len() > 0 && is_white(s.last()) {
        trimmed_end(s.drop_last())
    } else {
        s
    }
}

/// A text without the white space around it.
pub open spec fn trimmed(s: Seq<char>) -> Seq<char> {
    trimmed_end(trimmed_start(s))
}

/// A text that holds nothing but white space.
pub open spec fn is_blank(s: Seq<char>) -> bool {
    trimmed(s).len() == 0
}

/// The text without the white space around it.
pub fn trim(s: &str) -> (r: String)
    ensures
        r@ == trimmed(s@),
{
    let n: usize = s.unicode_len();
    let mut from: usize = 0;
    assert(s@.skip(0) =~= s@);
    while from < n && white(s.get_char(from))
        invariant
            from <= n,
            n == s@.len(),
            trimmed_start(s@) == trimmed_start(s@.skip(from as int)),
        decreases n - from,
    {
        assert(s@.skip(from as int).drop_first() =~= s@.skip(from + 1));
        from = from + 1;
    }
    assert(trimmed_start(s@) == s@.skip(from as int));
    let mut to: usize = n;
    assert(s@.subrange(from as int, n as int) =~= s@.skip(from as int));
    while from < to && white(s.get_char(to - 1))
        invariant
            from <= to <= n,
            n == s@.len(),
            trimmed(s@) == trimmed_end(s@.subrange(from as int, to as int)),
        decreases to,
    {
        assert(s@.subrange(from as int, to as int).drop_last() =~= s@.subrange(
            from as int,
            to - 1,
        ));
        to = to - 1;
    }
    s.substring_char(from, to).to_owned()
}

/// Whether the text holds nothing but white space.
pub fn blank(s: &str) -> (r: bool)
    ensures
        r == is_blank(s@),
{
    trim(s).as_str().unicode_len() == 0
}

/// An optional text, unless it is blank. The text itself is kept as it is.
pub open spec fn unless_blank(s: Option<Seq<char>>) -> Option<Seq<char>> {
    match s {
        Some(t) if !is_blank(t) => Some(t),
        _ => None,
    }
}

/// What an optional text holds.
pub open spec fn opt_text(s: Option<String>) -> Option<Seq<char>> {
    match s {
        Some(t) => Some(t@),
        None => None,
    }
}

/// Whether a text begins with another one.
pub open spec fn starts(s: Seq<char>, head: Seq<char>) -> bool {
    head.len() <= s.len() && s.take(head.len() as int) == head
}

pub fn begins_with(s: &str, head: &str) -> (r: bool)
    ensures
        r == starts(s@, head@),
{
    let n: usize = head.unicode_len();
    if s.unicode_len() < n {
        return false;
    }
    let own = s.substring_char(0, n);
    assert(own@ =~= s@.take(n as int));
    same(own, head)
}

/// Another text that says the same, where there is one.
pub fn copy_text(s: &Option<String>) -> (r: Option<String>)
    ensures
        opt_text(r) == opt_text(*s),
{
    match s {
        Some(t) => Some(t.clone()),
        None => None,
    }
}

/// The number of a document; blank where it has none.
pub open spec fn number_or_blank(number: Option<Seq<char>>) -> Seq<char> {
    match number {
        Some(n) => n,
        None => ""@,
    }
}

pub fn show_or_blank(number: &Option<String>) -> (r: String)
    ensures
        r@ == number_or_blank(opt_text(*number)),
{
    match number {
        Some(n) => n.clone(),
        None => "".to_owned(),
    }
}

/// Drops an optional text that is blank.
pub fn keep_text(s: Option<String>) -> (r: Option<String>)
    ensures
        opt_text(r) == unless_blank(opt_text(s)),
{
    match s {
        Some(t) => {
            if blank(t.as_str()) {
                None
            } else {
                Some(t)
            }
        },
        None => None,
    }
}

/// An optional text without the white space around it, unless nothing is left.
pub open spec fn trimmed_unless_blank(s: Option<Seq<char>>) -> Option<Seq<char>> {
    match s {
        Some(t) if !is_blank(t) => Some(trimmed(t)),
        _ => None,
    }
}

/// Trims an optional text, dropping it where nothing is left.
pub fn keep_trimmed(s: Option<String>) -> (r: Option<String>)
    ensures
        opt_text(r) == trimmed_unless_blank(opt_text(s)),
{
    match s {
        Some(t) => {
            let kept = trim(t.as_str());
            if kept.as_str().unicode_len() == 0 {
                None
            } else {
                Some(kept)
            }
        },
        None => None,
    }
}

/// The text with its first character in upper case.
pub open spec fn title_cased(s: Seq<char>) -> Seq<char> {
    if s.len() == 0 {
        s
    } else {
        upper_case(s[0]) + s.drop_first()
    }
}

/// Puts the first character in upper case, the rest as it stands.
pub fn title_case(s: &str) -> (r: String)
    ensures
        r@ == title_cased(s@),
{
    let n: usize = s.unicode_len();
    if n == 0 {
        assert(s@ =~= Seq::<char>::empty());
        String::new()
    } else {
        let rest = s.substring_char(1, n);
        assert(rest@ =~= s@.drop_first());
        upper(s.get_char(0)).concat(rest)
    }
}

/// A title starts with the upper case of its first character and goes on as it
/// was; where that character is of ASCII, a second time changes nothing.
pub proof fn titles_start_in_upper_case(s: Seq<char>)
    requires
        s.len() > 0 ==> is_ascii(s[0]),
    ensures
        s.len() == 0 ==> title_cased(s) == s,
        s.len() > 0 ==> title_cased(s) == seq![ascii_upper(s[0])] + s.drop_first(),
        title_cased(title_cased(s)) == title_cased(s),
{
    if s.len() > 0 {
        let t = title_cased(s);
        assert(t[0] == ascii_upper(s[0]));
        assert(t.drop_first() =~= s.drop_first());
        assert(ascii_upper(t[0]) == t[0]);
    }
}

// ---------------------------------------------------------------------------
// Lines
// ---------------------------------------------------------------------------

/// What a list of texts holds.
pub open spec fn texts(list: Seq<String>) -> Seq<Seq<char>> {
    list.map_values(|s: String| s@)
}

/// Whether a list holds a text.
pub fn contains_text(list: &Vec<String>, s: &str) -> (r: bool)
    ensures
        r == texts(list@).contains(s@),
{
    let ghost all = texts(list@);
    let mut i: usize = 0;
    while i < list.len()
        invariant
            i <= list.len(),
            all == texts(list@),
            forall|k: int| 0 <= k < i ==> #[trigger] all[k] != s@,
        decreases list.len() - i,
    {
        if same(list[i].as_str(), s) {
            assert(all[i as int] == s@);
            return true;
        }
        i = i + 1;
    }
    false
}

/// The first place from `from` on that holds a newline, or the end.
pub open spec fn newline(s: Seq<char>, from: int) -> int
    decreases s.len() - from,
{
    if from < 0 || from >= s.len() {
        s.len() as int
    } else if s[from] == '\n' {
        from
    } else {
        newline(s, from + 1)
    }
}

proof fn lemma_newline(s: Seq<char>, from: int)
    requires
        0 <= from <= s.len(),
    ensures
        from <= newline(s, from) <= s.len(),
    decreases s.len() - from,
{
    if from < s.len() && s[from] != '\n' {
        lemma_newline(s, from + 1);
    }
}

/// The lines of a text that are not blank, from `from` on, without the white
/// space around them.
pub open spec fn lines_from(s: Seq<char>, from: int) -> Seq<Seq<char>>
    decreases s.len() - from, 0int,
    via lines_from_decreases
{
    if from < 0 || from > s.len() {
        Seq::empty()
    } else {
        let end = newline(s, from);
        let line = s.subrange(from, end);
        let rest = if end < s.len() {
            lines_from(s, end + 1)
        } else {
            Seq::empty()
        };
        if is_blank(line) {
            rest
        } else {
            seq![trimmed(line)] + rest
        }
    }
}

#[via_fn]
proof fn lines_from_decreases(s: Seq<char>, from: int) {
    if 0 <= from <= s.len() {
        lemma_newline(s, from);
    }
}

/// The lines of a text that are not blank, without the white space around
/// them.
pub open spec fn lines_of(s: Seq<char>) -> Seq<Seq<char>> {
    lines_from(s, 0)
}

/// Append the lines of a text that are not blank.
pub fn push_lines(out: &mut Vec<String>, s: &str)
    ensures
        texts(final(out)@) == texts(old(out)@) + lines_of(s@),
{
    let n: usize = s.unicode_len();
    let ghost start = texts(out@);
    let mut from: usize = 0;
    let mut more = true;
    assert(start + lines_of(s@) =~= texts(out@) + lines_from(s@, 0));
    while more
        invariant
            n == s@.len(),
            from <= n,
            more ==> start + lines_of(s@) == texts(out@) + lines_from(s@, from as int),
            !more ==> start + lines_of(s@) == texts(out@),
        decreases n - from + if more {
            1int
        } else {
            0
        },
    {
        let mut end: usize = from;
        while end < n && s.get_char(end) != '\n'
            invariant
                from <= end <= n,
                n == s@.len(),
                newline(s@, from as int) == newline(s@, end as int),
            decreases n - end,
        {
            end = end + 1;
        }
        let line = trim(s.substring_char(from, end));
        let ghost before = out@;
        let ghost rest = if end < n {
            lines_from(s@, end + 1)
        } else {
            Seq::empty()
        };
        if line.as_str().unicode_len() != 0 {
            out.push(line);
            assert(texts(out@) =~= texts(before).push(line@));
            assert(texts(before) + (seq![line@] + rest) =~= texts(out@) + rest);
        } else {
            assert(texts(before) + rest == texts(out@) + rest);
        }
        if end < n {
            from = end + 1;
        } else {
            more = false;
            assert(texts(out@) + rest =~= texts(out@));
        }
    }
}

/// The first `n` texts with a newline between them.
pub open spec fn joined_to(parts: Seq<Seq<char>>, n: nat) -> Seq<char>
    decreases n,
{
    if n == 0 {
        Seq::empty()
    } else if n == 1 {
        parts[0]
    } else {
        joined_to(parts, (n - 1) as nat) + "\n"@ + parts[n - 1]
    }
}

/// The texts with a newline between them.
pub open spec fn joined(parts: Seq<Seq<char>>) -> Seq<char> {
    joined_to(parts, parts.len())
}

/// Join texts with a newline between them.
pub fn join_lines(parts: &Vec<String>) -> (r: String)
    ensures
        r@ == joined(texts(parts@)),
{
    let ghost all = texts(parts@);
    let mut out = String::new();
    let mut i: usize = 0;
    while i < parts.len()
        invariant
            i <= parts.len(),
            all == texts(parts@),
            out@ == joined_to(all, i as nat),
        decreases parts.len() - i,
    {
        assert(all[i as int] == parts@[i as int]@);
        out = if i == 0 {
            parts[i].clone()
        } else {
            cat3(out.as_str(), "\n", parts[i].as_str())
        };
        i = i + 1;
    }
    out
}

// ---------------------------------------------------------------------------
// Digits
// ---------------------------------------------------------------------------

/// The character of a decimal digit.
pub open spec fn digit(d: int) -> char {
    (48 + d) as char
}

/// A natural number in decimal.
pub open spec fn digits(n: nat) -> Seq<char>
    decreases n,
{
    if n < 10 {
        seq![digit(n as int)]
    } else {
        digits(n / 10).push(digit((n % 10) as int))
    }
}

/// The last `width` decimal digits of a natural number, with zeros in front.
pub open spec fn padded(n: nat, width: nat) -> Seq<char>
    decreases width,
{
    if width == 0 {
        Seq::empty()
    } else {
        padded(n / 10, (width - 1) as nat).push(digit((n % 10) as int))
    }
}

/// An integer in decimal, with a minus sign where it is negative.
pub open spec fn int_text(n: int) -> Seq<char> {
    if n < 0 {
        "-"@ + digits((-n) as nat)
    } else {
        digits(n as nat)
    }
}

fn show_digit(d: u64) -> (r: &'static str)
    requires
        d < 10,
    ensures
        r@ == seq![digit(d as int)],
{
    proof {
        reveal_strlit("0");
        reveal_strlit("1");
        reveal_strlit("2");
        reveal_strlit("3");
        reveal_strlit("4");
        reveal_strlit("5");
        reveal_strlit("6");
        reveal_strlit("7");
        reveal_strlit("8");
        reveal_strlit("9");
    }
    let r = if d == 0 {
        "0"
    } else if d == 1 {
        "1"
    } else if d == 2 {
        "2"
    } else if d == 3 {
        "3"
    } else if d == 4 {
        "4"
    } else if d == 5 {
        "5"
    } else if d == 6 {
        "6"
    } else if d == 7 {
        "7"
    } else if d == 8 {
        "8"
    } else {
        "9"
    };
    assert(r@ =~= seq![digit(d as int)]);
    r
}

/// The number in decimal.
pub fn show_nat(n: u64) -> (r: String)
    ensures
        r@ == digits(n as nat),
    decreases n,
{
    if n < 10 {
        show_digit(n).to_owned()
    } else {
        let last = show_digit(n % 10);
        let r = show_nat(n / 10).concat(last);
        assert(r@ =~= digits((n / 10) as nat).push(digit((n % 10) as int)));
        r
    }
}

/// The last `width` digits of the number, with zeros in front.
pub fn show_padded(n: u64, width: usize) -> (r: String)
    ensures
        r@ == padded(n as nat, width as nat),
    decreases width,
{
    if width == 0 {
        String::new()
    } else {
        let last = show_digit(n % 10);
        let r = show_padded(n / 10, width - 1).concat(last);
        assert(r@ =~= padded((n / 10) as nat, (width - 1) as nat).push(digit((n % 10) as int)));
        r
    }
}

/// The integer in decimal, with a minus sign where it is negative.
pub fn show_int(n: i64) -> (r: String)
    ensures
        r@ == int_text(n as int),
{
    if n >= 0 {
        show_nat(n as u64)
    } else if n == i64::MIN {
        let r = cat2("-", show_nat(9223372036854775808).as_str());
        r
    } else {
        let magnitude: u64 = (-n) as u64;
        cat2("-", show_nat(magnitude).as_str())
    }
}

} // verus!
