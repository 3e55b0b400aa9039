use vstd::prelude::*;
use vstd::std_specs::iter::IteratorSpec;

verus! {

/// The characters of `s` in order.
pub(crate) fn chars_of(s: &str) -> (r: Vec<char>)
    ensures
        r@ == s@,
{
    broadcast use vstd::string::axiom_spec_iter, vstd::string::next_postcondition;

    let mut it = s.chars();
    let mut out: Vec<char> = Vec::new();
    loop
        invariant
            it.obeys_prophetic_iter_laws(),
            it.decrease() is Some,
            out@ + it.remaining() == s@,
        decreases it.decrease()->0,
    {
        match it.next() {
            Some(c) => {
                out.push(c);
            },
            None => {
                assert(out@ =~= s@);
                return out;
            },
        }
    }
}

/// Relies on `String::from_iter` over chars: the string of exactly these characters.
#[verifier::external_body]
pub(crate) fn string_of(v: &Vec<char>) -> (r: String)
    ensures
        r@ == v@,
{
    v.iter().collect()
}

/// `pat` occurs in `s` at position `i`.
pub open spec fn occurs_at(s: Seq<char>, i: int, pat: Seq<char>) -> bool {
    0 <= i && i + pat.len() <= s.len() && s.subrange(i, i + pat.len()) == pat
}

/// `pat` occurs somewhere in `s`.
pub open spec fn contains(s: Seq<char>, pat: Seq<char>) -> bool {
    exists|i: int| #[trigger] occurs_at(s, i, pat)
}

/// A character that can be part of an identifier.
pub open spec fn is_ident_char(c: char) -> bool {
    ('a' <= c && c <= 'z') || ('A' <= c && c <= 'Z') || ('0' <= c && c <= '9') || c == '_'
}

/// `s` with every occurrence of `pat` that starts a token (it is not
/// preceded by an identifier character) replaced by `rep`, scanning from the
/// left; `after_ident` tells whether the character before `s` is an
/// identifier character.
pub open spec fn replace_bare(s: Seq<char>, pat: Seq<char>, rep: Seq<char>, after_ident: bool) -> Seq<
    char,
>
    decreases s.len(),
{
    if s.len() == 0 {
        s
    } else if !after_ident && pat.len() > 0 && occurs_at(s, 0, pat) {
        rep + replace_bare(
            s.subrange(pat.len() as int, s.len() as int),
            pat,
            rep,
            is_ident_char(pat.last()),
        )
    } else {
        seq![s[0]] + replace_bare(s.subrange(1, s.len() as int), pat, rep, is_ident_char(s[0]))
    }
}

/// Where the run of identifier characters of `s` that starts at `i` ends.
pub open spec fn ident_end(s: Seq<char>, i: int) -> int
    decreases s.len() - i,
{
    if i < 0 || i >= s.len() {
        s.len() as int
    } else if is_ident_char(s[i]) {
        ident_end(s, i + 1)
    } else {
        i
    }
}

/// Where the run of white space of `s` that starts at `i` ends.
pub open spec fn space_end(s: Seq<char>, i: int) -> int
    decreases s.len() - i,
{
    if i < 0 || i >= s.len() {
        s.len() as int
    } else if is_white_space(s[i]) {
        space_end(s, i + 1)
    } else {
        i
    }
}

/// Where the `(` of a call whose name starts at `i` would stand: after the
/// rest of the name beyond `prefix` and any white space.
pub open spec fn paren_pos(s: Seq<char>, i: int, prefix: Seq<char>) -> int {
    space_end(s, ident_end(s, i + prefix.len()))
}

/// At `i` starts a call whose name begins with `prefix`: an identifier that
/// begins with `prefix`, followed, after optional white space, by `(`.
pub open spec fn call_at(s: Seq<char>, i: int, prefix: Seq<char>) -> bool {
    &&& i == 0 || (0 < i && !is_ident_char(s[i - 1]))
    &&& occurs_at(s, i, prefix)
    &&& paren_pos(s, i, prefix) < s.len()
    &&& s[paren_pos(s, i, prefix)] == '('
}

/// `s` holds a call whose name begins with `prefix`.
pub open spec fn has_call(s: Seq<char>, prefix: Seq<char>) -> bool {
    exists|i: int| #[trigger] call_at(s, i, prefix)
}

/// Unicode `White_Space`, as `char::is_whitespace` tests it.
pub open spec fn is_white_space(c: char) -> bool {
    let u = c as u32;
    (0x9 <= u && u <= 0xd) || u == 0x20 || u == 0x85 || u == 0xa0 || u == 0x1680 || (0x2000
        <= u && u <= 0x200a) || u == 0x2028 || u == 0x2029 || u == 0x202f || u == 0x205f || u
        == 0x3000
}

/// `s` without its trailing white space.
pub open spec fn trim_end(s: Seq<char>) -> Seq<char>
    decreases s.len(),
{
    if s.len() > 0 && is_white_space(s.last()) {
        trim_end(s.drop_last())
    } else {
        s
    }
}

/// The margin put before each non-empty line of a function body.
pub open spec fn margin() -> Seq<char> {
    "    "@
}

/// `s` with the margin put before every non-empty line; `at_start` tells
/// whether `s` begins a line.
pub open spec fn indent_from(s: Seq<char>, at_start: bool) -> Seq<char>
    decreases s.len(),
{
    if s.len() == 0 {
        s
    } else if s[0] == '\n' {
        seq!['\n'] + indent_from(s.subrange(1, s.len() as int), true)
    } else if at_start {
        margin() + seq![s[0]] + indent_from(s.subrange(1, s.len() as int), false)
    } else {
        seq![s[0]] + indent_from(s.subrange(1, s.len() as int), false)
    }
}

/// `s` indented by the margin, line by line.
pub open spec fn indented(s: Seq<char>) -> Seq<char> {
    indent_from(s, true)
}

/// The decimal digit for `d < 10`.
pub open spec fn digit_char(d: nat) -> char {
    if d == 0 { '0' }
    else if d == 1 { '1' }
    else if d == 2 { '2' }
    else if d == 3 { '3' }
    else if d == 4 { '4' }
    else if d == 5 { '5' }
    else if d == 6 { '6' }
    else if d == 7 { '7' }
    else if d == 8 { '8' }
    else { '9' }
}

/// The decimal representation of `n`, without leading zeros.
pub open spec fn decimal(n: nat) -> Seq<char>
    decreases n,
{
    if n < 10 {
        seq![digit_char(n)]
    } else {
        decimal(n / 10).push(digit_char(n % 10))
    }
}

/// Appends the characters of `s` to `out`.
pub fn push_str(out: &mut Vec<char>, s: &str)
    ensures
        final(out)@ == old(out)@ + s@,
{
    let mut v = chars_of(s);
    out.append(&mut v);
}

/// Appends the characters of `v` to `out`.
pub fn push_chars(out: &mut Vec<char>, v: &Vec<char>)
    ensures
        final(out)@ == old(out)@ + v@,
{
    let mut i: usize = 0;
    while i < v.len()
        invariant
            i <= v@.len(),
            out@ == old(out)@ + v@.subrange(0, i as int),
        decreases v@.len() - i,
    {
        out.push(v[i]);
        i = i + 1;
        assert(v@.subrange(0, i as int) == v@.subrange(0, i - 1) + seq![v@[i - 1]]);
    }
    assert(v@.subrange(0, v@.len() as int) == v@);
}

/// Whether `pat` occurs in `s` at position `i`.
pub fn occurs_at_exec(s: &Vec<char>, i: usize, pat: &Vec<char>) -> (r: bool)
    ensures
        r == occurs_at(s@, i as int, pat@),
{
    if i > s.len() || pat.len() > s.len() - i {
        return false;
    }
    let mut j: usize = 0;
    while j < pat.len()
        invariant
            s@.len() <= usize::MAX,
            i + pat@.len() <= s@.len(),
            j <= pat@.len(),
            forall|k: int| 0 <= k < j ==> s@[i + k] == pat@[k],
        decreases pat@.len() - j,
    {
        if s[i + j] != pat[j] {
            assert(s@.subrange(i as int, i + pat@.len())[j as int] != pat@[j as int]);
            return false;
        }
        j = j + 1;
    }
    assert(s@.subrange(i as int, i + pat@.len()) =~= pat@);
    true
}

/// Whether `pat` occurs anywhere in `s`.
pub fn contains_exec(s: &Vec<char>, pat: &Vec<char>) -> (r: bool)
    ensures
        r == contains(s@, pat@),
{
    if pat.len() > s.len() {
        assert forall|i: int| !occurs_at(s@, i, pat@) by {}
        return false;
    }
    if pat.len() == 0 {
        assert(s@.subrange(0, 0) =~= pat@);
        assert(occurs_at(s@, 0, pat@));
        return true;
    }
    let last: usize = s.len() - pat.len();
    let mut i: usize = 0;
    while i <= last
        invariant
            s@.len() <= usize::MAX,
            pat@.len() > 0,
            last == s@.len() - pat@.len(),
            i <= last + 1,
            forall|k: int| 0 <= k < i ==> !occurs_at(s@, k, pat@),
        decreases last + 1 - i,
    {
        if occurs_at_exec(s, i, pat) {
            assert(occurs_at(s@, i as int, pat@));
            return true;
        }
        i = i + 1;
    }
    assert forall|k: int| !occurs_at(s@, k, pat@) by {
        if 0 <= k < i {
        }
    }
    false
}

/// Whether `c` is an identifier character.
pub fn is_ident_char_exec(c: char) -> (r: bool)
    ensures
        r == is_ident_char(c),
{
    ('a' <= c && c <= 'z') || ('A' <= c && c <= 'Z') || ('0' <= c && c <= '9') || c == '_'
}

/// `s` with every occurrence of `pat` that starts a token replaced by `rep`.
pub fn replace_bare_exec(s: &Vec<char>, pat: &Vec<char>, rep: &Vec<char>) -> (r: Vec<char>)
    requires
        pat@.len() > 0,
    ensures
        r@ == replace_bare(s@, pat@, rep@, false),
{
    let mut out: Vec<char> = Vec::new();
    let mut i: usize = 0;
    let mut after_ident = false;
    let pat_ends_ident = is_ident_char_exec(pat[pat.len() - 1]);
    assert(s@.subrange(0, s@.len() as int) == s@);
    while i < s.len()
        invariant
            pat@.len() > 0,
            pat_ends_ident == is_ident_char(pat@.last()),
            i <= s@.len(),
            out@ + replace_bare(s@.subrange(i as int, s@.len() as int), pat@, rep@, after_ident)
                == replace_bare(s@, pat@, rep@, false),
        decreases s@.len() - i,
    {
        let ghost rest = s@.subrange(i as int, s@.len() as int);
        if !after_ident && occurs_at_exec(s, i, pat) {
            assert(rest.subrange(0, pat@.len() as int) == s@.subrange(
                i as int,
                i + pat@.len(),
            ));
            assert(occurs_at(rest, 0, pat@));
            assert(rest.subrange(pat@.len() as int, rest.len() as int) == s@.subrange(
                i + pat@.len(),
                s@.len() as int,
            ));
            push_chars(&mut out, rep);
            i = i + pat.len();
            after_ident = pat_ends_ident;
        } else {
            assert(rest.len() >= pat@.len() ==> rest.subrange(0, pat@.len() as int) == s@.subrange(
                i as int,
                i + pat@.len(),
            ));
            assert(!after_ident ==> !occurs_at(rest, 0, pat@));
            assert(rest.subrange(1, rest.len() as int) == s@.subrange(
                i + 1,
                s@.len() as int,
            ));
            let c = s[i];
            out.push(c);
            i = i + 1;
            after_ident = is_ident_char_exec(c);
        }
        assert(out@ + replace_bare(s@.subrange(i as int, s@.len() as int), pat@, rep@, after_ident)
            == replace_bare(s@, pat@, rep@, false));
    }
    assert(s@.subrange(i as int, s@.len() as int).len() == 0);
    out
}

/// Whether a call whose name begins with `prefix` starts at `i`.
pub fn call_at_exec(s: &Vec<char>, i: usize, prefix: &Vec<char>) -> (r: bool)
    requires
        i < s@.len(),
    ensures
        r == call_at(s@, i as int, prefix@),
{
    if i > 0 && is_ident_char_exec(s[i - 1]) {
        return false;
    }
    if !occurs_at_exec(s, i, prefix) {
        return false;
    }
    let n = s.len();
    assert(i + prefix@.len() <= n);
    let mut j: usize = i + prefix.len();
    while j < s.len() && is_ident_char_exec(s[j])
        invariant
            i + prefix@.len() <= j <= s@.len(),
            ident_end(s@, j as int) == ident_end(s@, i + prefix@.len()),
        decreases s@.len() - j,
    {
        j = j + 1;
    }
    let ghost name_end = j as int;
    while j < s.len() && is_white_space_exec(s[j])
        invariant
            j <= s@.len(),
            space_end(s@, j as int) == space_end(s@, name_end),
            name_end == ident_end(s@, i + prefix@.len()),
        decreases s@.len() - j,
    {
        j = j + 1;
    }
    j < s.len() && s[j] == '('
}

/// Whether `s` holds a call whose name begins with `prefix`.
pub fn has_call_exec(s: &Vec<char>, prefix: &Vec<char>) -> (r: bool)
    ensures
        r == has_call(s@, prefix@),
{
    let mut i: usize = 0;
    while i < s.len()
        invariant
            i <= s@.len(),
            forall|k: int| 0 <= k < i ==> !call_at(s@, k, prefix@),
        decreases s@.len() - i,
    {
        if call_at_exec(s, i, prefix) {
            return true;
        }
        i = i + 1;
    }
    assert forall|k: int| !call_at(s@, k, prefix@) by {
        if k >= s@.len() || k < 0 {
            assert(!occurs_at(s@, k, prefix@) || paren_pos(s@, k, prefix@) >= s@.len());
        }
    }
    false
}

/// Whether `c` is white space.
pub fn is_white_space_exec(c: char) -> (r: bool)
    ensures
        r == is_white_space(c),
{
    let u = c as u32;
    (0x9 <= u && u <= 0xd) || u == 0x20 || u == 0x85 || u == 0xa0 || u == 0x1680 || (0x2000
        <= u && u <= 0x200a) || u == 0x2028 || u == 0x2029 || u == 0x202f || u == 0x205f || u
        == 0x3000
}

/// `s` without its trailing white space.
pub fn trim_end_exec(s: &Vec<char>) -> (r: Vec<char>)
    ensures
        r@ == trim_end(s@),
{
    let mut end: usize = s.len();
    assert(s@.subrange(0, end as int) == s@);
    while end > 0 && is_white_space_exec(s[end - 1])
        invariant
            end <= s@.len(),
            trim_end(s@.subrange(0, end as int)) == trim_end(s@),
        decreases end,
    {
        assert(s@.subrange(0, end as int).drop_last() == s@.subrange(0, end - 1));
        end = end - 1;
    }
    let mut out: Vec<char> = Vec::new();
    let mut i: usize = 0;
    while i < end
        invariant
            i <= end <= s@.len(),
            out@ == s@.subrange(0, i as int),
        decreases end - i,
    {
        out.push(s[i]);
        i = i + 1;
        assert(out@ =~= s@.subrange(0, i as int));
    }
    out
}

/// `s` with the margin put before every non-empty line.
pub fn indent_exec(s: &Vec<char>) -> (r: Vec<char>)
    ensures
        r@ == indented(s@),
{
    let mut out: Vec<char> = Vec::new();
    let mut at_start = true;
    let mut i: usize = 0;
    assert(s@.subrange(0, s@.len() as int) == s@);
    while i < s.len()
        invariant
            i <= s@.len(),
            out@ + indent_from(s@.subrange(i as int, s@.len() as int), at_start) == indented(s@),
        decreases s@.len() - i,
    {
        let ghost rest = s@.subrange(i as int, s@.len() as int);
        assert(rest.subrange(1, rest.len() as int) == s@.subrange(i + 1, s@.len() as int));
        let c = s[i];
        if c == '\n' {
            out.push(c);
            at_start = true;
        } else {
            if at_start {
                push_str(&mut out, "    ");
            }
            out.push(c);
            at_start = false;
        }
        i = i + 1;
        assert(out@ + indent_from(s@.subrange(i as int, s@.len() as int), at_start) == indented(
            s@,
        ));
    }
    out
}

/// The decimal digit for `d`.
pub fn digit_exec(d: usize) -> (c: char)
    requires
        d < 10,
    ensures
        c == digit_char(d as nat),
{
    if d == 0 { '0' }
    else if d == 1 { '1' }
    else if d == 2 { '2' }
    else if d == 3 { '3' }
    else if d == 4 { '4' }
    else if d == 5 { '5' }
    else if d == 6 { '6' }
    else if d == 7 { '7' }
    else if d == 8 { '8' }
    else { '9' }
}

/// Appends the decimal representation of `n` to `out`.
pub fn push_decimal(out: &mut Vec<char>, n: usize)
    ensures
        final(out)@ == old(out)@ + decimal(n as nat),
    decreases n,
{
    if n >= 10 {
        push_decimal(out, n / 10);
    }
    out.push(digit_exec(n % 10));
    assert(final(out)@ =~= old(out)@ + decimal(n as nat));
}

} // verus!
