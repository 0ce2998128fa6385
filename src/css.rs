use vstd::prelude::*;

use crate::text::{chars_of, string_of};

verus! {

/// Whether a character is white space in Unicode's sense.
pub open spec fn is_space(c: char) -> bool {
    c == '\t' || c == '\n' || c == '\u{0B}' || c == '\u{0C}' || c == '\r' || c == ' ' || c
        == '\u{85}' || c == '\u{A0}' || c == '\u{1680}' || ('\u{2000}' <= c && c <= '\u{200A}')
        || c == '\u{2028}' || c == '\u{2029}' || c == '\u{202F}' || c == '\u{205F}' || c
        == '\u{3000}'
}

fn space(c: char) -> (r: bool)
    ensures
        r == is_space(c),
{
    c == '\t' || c == '\n' || c == '\u{0B}' || c == '\u{0C}' || c == '\r' || c == ' ' || c
        == '\u{85}' || c == '\u{A0}' || c == '\u{1680}' || ('\u{2000}' <= c && c <= '\u{200A}')
        || c == '\u{2028}' || c == '\u{2029}' || c == '\u{202F}' || c == '\u{205F}' || c
        == '\u{3000}'
}

/// A text without its leading white space.
pub open spec fn trim_start(s: Seq<char>) -> Seq<char>
    decreases s.len(),
{
    if s.len() > 0 && is_space(s[0]) {
        trim_start(s.drop_first())
    } else {
        s
    }
}

/// A text without its trailing white space.
pub open spec fn trim_end(s: Seq<char>) -> Seq<char>
    decreases s.len(),
{
    if s.len() > 0 && is_space(s.last()) {
        trim_end(s.drop_last())
    } else {
        s
    }
}

/// A text without white space at either end.
pub open spec fn trim(s: Seq<char>) -> Seq<char> {
    trim_end(trim_start(s))
}

/// A text without its trailing semicolons.
pub open spec fn trim_semicolons(s: Seq<char>) -> Seq<char>
    decreases s.len(),
{
    if s.len() > 0 && s.last() == ';' {
        trim_semicolons(s.drop_last())
    } else {
        s
    }
}

/// Whether a text begins with a prefix.
pub open spec fn starts_with(s: Seq<char>, p: Seq<char>) -> bool {
    p.len() <= s.len() && s.subrange(0, p.len() as int) == p
}

/// A text without any repetitions of a prefix at its start.
pub open spec fn strip_prefixes(s: Seq<char>, p: Seq<char>) -> Seq<char>
    decreases s.len(),
{
    if p.len() > 0 && starts_with(s, p) {
        strip_prefixes(s.subrange(p.len() as int, s.len() as int), p)
    } else {
        s
    }
}

/// The index of the first space character, if any.
pub open spec fn first_space(s: Seq<char>) -> Option<int>
    decreases s.len(),
{
    if s.len() == 0 {
        None
    } else if s.last() == ' ' && first_space(s.drop_last()) is None {
        Some(s.len() - 1)
    } else {
        first_space(s.drop_last())
    }
}

/// A text split around its first space, if it has one.
pub open spec fn split_at_space(s: Seq<char>) -> Option<(Seq<char>, Seq<char>)> {
    match first_space(s) {
        Some(i) => Some((s.subrange(0, i), s.subrange(i + 1, s.len() as int))),
        None => None,
    }
}

/// The keyword that opens a colour definition.
pub open spec fn define_color() -> Seq<char> {
    "@define-color"@
}

/// The colour that a line of a style sheet defines, as a name and a value:
/// `@define-color name value;`, with surrounding space and trailing
/// semicolons ignored.
pub open spec fn color_definition(line: Seq<char>) -> Option<(Seq<char>, Seq<char>)> {
    let l = trim_semicolons(trim(line));
    if starts_with(l, define_color()) {
        split_at_space(trim(strip_prefixes(l, define_color())))
    } else {
        None
    }
}

/// The colour definitions of a list of lines, in order.
pub open spec fn definitions(lines: Seq<Seq<char>>) -> Seq<(Seq<char>, Seq<char>)>
    decreases lines.len(),
{
    if lines.len() == 0 {
        Seq::empty()
    } else {
        definitions(lines.drop_last()) + match color_definition(lines.last()) {
            Some(d) => seq![d],
            None => Seq::empty(),
        }
    }
}

/// The complete lines of a text and the unfinished last one.
pub open spec fn split_lines(s: Seq<char>) -> (Seq<Seq<char>>, Seq<char>)
    decreases s.len(),
{
    if s.len() == 0 {
        (Seq::empty(), Seq::empty())
    } else {
        let (done, cur) = split_lines(s.drop_last());
        if s.last() == '\n' {
            (done.push(cur), Seq::empty())
        } else {
            (done, cur.push(s.last()))
        }
    }
}

/// The lines of a text.
pub open spec fn lines(s: Seq<char>) -> Seq<Seq<char>> {
    split_lines(s).0.push(split_lines(s).1)
}

/// The colour definitions of a style sheet, in order.
pub open spec fn css_colors(text: Seq<char>) -> Seq<(Seq<char>, Seq<char>)> {
    definitions(lines(text))
}

/// The views of a list of name and value pairs.
pub open spec fn pairs_view(v: Seq<(String, String)>) -> Seq<(Seq<char>, Seq<char>)> {
    v.map_values(|p: (String, String)| (p.0@, p.1@))
}

fn skip_space_start(v: &Vec<char>, lo: usize, hi: usize) -> (a: usize)
    requires
        lo <= hi <= v.len(),
    ensures
        lo <= a <= hi,
        trim_start(v@.subrange(lo as int, hi as int)) == v@.subrange(a as int, hi as int),
{
    let mut a = lo;
    while a < hi && space(v[a])
        invariant
            lo <= a <= hi <= v.len(),
            trim_start(v@.subrange(lo as int, hi as int)) == trim_start(
                v@.subrange(a as int, hi as int),
            ),
        decreases hi - a,
    {
        assert(v@.subrange(a as int, hi as int).drop_first() =~= v@.subrange(a + 1, hi as int));
        a = a + 1;
    }
    a
}

fn skip_space_end(v: &Vec<char>, lo: usize, hi: usize) -> (b: usize)
    requires
        lo <= hi <= v.len(),
    ensures
        lo <= b <= hi,
        trim_end(v@.subrange(lo as int, hi as int)) == v@.subrange(lo as int, b as int),
{
    let mut b = hi;
    while b > lo && space(v[b - 1])
        invariant
            lo <= b <= hi <= v.len(),
            trim_end(v@.subrange(lo as int, hi as int)) == trim_end(
                v@.subrange(lo as int, b as int),
            ),
        decreases b - lo,
    {
        assert(v@.subrange(lo as int, b as int).drop_last() =~= v@.subrange(lo as int, b - 1));
        b = b - 1;
    }
    b
}

fn skip_semicolons_end(v: &Vec<char>, lo: usize, hi: usize) -> (b: usize)
    requires
        lo <= hi <= v.len(),
    ensures
        lo <= b <= hi,
        trim_semicolons(v@.subrange(lo as int, hi as int)) == v@.subrange(lo as int, b as int),
{
    let mut b = hi;
    while b > lo && v[b - 1] == ';'
        invariant
            lo <= b <= hi <= v.len(),
            trim_semicolons(v@.subrange(lo as int, hi as int)) == trim_semicolons(
                v@.subrange(lo as int, b as int),
            ),
        decreases b - lo,
    {
        assert(v@.subrange(lo as int, b as int).drop_last() =~= v@.subrange(lo as int, b - 1));
        b = b - 1;
    }
    b
}

fn has_prefix(v: &Vec<char>, lo: usize, hi: usize, p: &Vec<char>) -> (r: bool)
    requires
        lo <= hi <= v.len(),
    ensures
        r == starts_with(v@.subrange(lo as int, hi as int), p@),
{
    if p.len() > hi - lo {
        return false;
    }
    let mut i: usize = 0;
    while i < p.len()
        invariant
            lo <= hi <= v.len(),
            p.len() <= hi - lo,
            i <= p.len(),
            forall|j: int| 0 <= j < i ==> v@[lo + j] == p@[j],
        decreases p.len() - i,
    {
        if v[lo + i] != p[i] {
            assert(v@.subrange(lo as int, hi as int).subrange(0, p.len() as int)[i as int]
                != p@[i as int]);
            return false;
        }
        i = i + 1;
    }
    assert(v@.subrange(lo as int, hi as int).subrange(0, p.len() as int) =~= p@);
    true
}

fn find_space(v: &Vec<char>, lo: usize, hi: usize) -> (r: Option<usize>)
    requires
        lo <= hi <= v.len(),
    ensures
        match first_space(v@.subrange(lo as int, hi as int)) {
            Some(i) => r == Some((lo + i) as usize),
            None => r is None,
        },
        r matches Some(i) ==> lo <= i < hi,
{
    proof {
        lemma_first_space_bounds(v@.subrange(lo as int, hi as int));
    }
    let mut i: usize = lo;
    while i < hi
        invariant
            lo <= i <= hi <= v.len(),
            forall|j: int| lo <= j < i ==> v@[j] != ' ',
        decreases hi - i,
    {
        if v[i] == ' ' {
            proof {
                lemma_first_space_prefix(v@.subrange(lo as int, hi as int), i - lo);
            }
            return Some(i);
        }
        i = i + 1;
    }
    proof {
        lemma_no_space(v@.subrange(lo as int, hi as int));
    }
    None
}

proof fn lemma_first_space_bounds(s: Seq<char>)
    ensures
        first_space(s) matches Some(k) ==> 0 <= k < s.len(),
    decreases s.len(),
{
    if s.len() > 0 {
        lemma_first_space_bounds(s.drop_last());
    }
}

proof fn lemma_no_space(s: Seq<char>)
    requires
        forall|j: int| 0 <= j < s.len() ==> s[j] != ' ',
    ensures
        first_space(s) is None,
    decreases s.len(),
{
    if s.len() > 0 {
        lemma_no_space(s.drop_last());
    }
}

proof fn lemma_first_space_prefix(s: Seq<char>, k: int)
    requires
        0 <= k < s.len(),
        s[k] == ' ',
        forall|j: int| 0 <= j < k ==> s[j] != ' ',
    ensures
        first_space(s) == Some(k),
    decreases s.len(),
{
    if s.len() - 1 == k {
        lemma_no_space(s.drop_last());
    } else {
        lemma_first_space_prefix(s.drop_last(), k);
    }
}

/// The colour that a line defines, if any.
fn line_definition(v: &Vec<char>, keyword: &Vec<char>) -> (r: Option<(String, String)>)
    requires
        keyword@ == define_color(),
    ensures
        match color_definition(v@) {
            Some(d) => r matches Some(p) && p.0@ == d.0 && p.1@ == d.1,
            None => r is None,
        },
{
    let n = v.len();
    assert(v@.subrange(0, n as int) =~= v@);
    let a = skip_space_start(v, 0, n);
    let t = skip_space_end(v, a, n);
    let b = skip_semicolons_end(v, a, t);
    let ghost l = v@.subrange(a as int, b as int);
    assert(l == trim_semicolons(trim(v@)));
    if !has_prefix(v, a, b, keyword) {
        return None;
    }
    proof {
        reveal_strlit("@define-color");
    }
    let mut c = a;
    assert(v@.subrange(a as int, b as int) =~= v@.subrange(c as int, b as int));
    while has_prefix(v, c, b, keyword)
        invariant
            a <= c <= b <= n == v.len(),
            keyword@ == define_color(),
            keyword@.len() == 13,
            strip_prefixes(v@.subrange(a as int, b as int), define_color()) == strip_prefixes(
                v@.subrange(c as int, b as int),
                define_color(),
            ),
        decreases b - c,
    {
        assert(v@.subrange(c as int, b as int).subrange(13, (b - c) as int) =~= v@.subrange(
            c + 13,
            b as int,
        ));
        c = c + 13;
    }
    assert(strip_prefixes(v@.subrange(c as int, b as int), define_color()) == v@.subrange(
        c as int,
        b as int,
    ));
    let d = skip_space_start(v, c, b);
    let e = skip_space_end(v, d, b);
    assert(trim(strip_prefixes(l, define_color())) == v@.subrange(d as int, e as int));
    match find_space(v, d, e) {
        Some(i) => {
            let ghost seg = v@.subrange(d as int, e as int);
            proof {
                lemma_first_space_bounds(seg);
            }
            assert(first_space(seg) == Some((i - d) as int));
            assert(seg.len() == e - d);
            assert(v@.subrange(d as int, e as int).subrange(0, i - d) =~= v@.subrange(
                d as int,
                i as int,
            ));
            assert(v@.subrange(d as int, e as int).subrange(i - d + 1, e - d) =~= v@.subrange(
                i + 1,
                e as int,
            ));
            let name = string_of(v, d, i);
            let value = string_of(v, i + 1, e);
            assert(split_at_space(seg) == Some((name@, value@)));
            assert(color_definition(v@) == Some((name@, value@)));
            Some((name, value))
        },
        None => None,
    }
}

/// The colours that a style sheet defines with `@define-color name value;`
/// lines, as name and value pairs in the order of the lines.
pub fn css_glob_export_colors(text: &str) -> (r: Vec<(String, String)>)
    ensures
        pairs_view(r@) == css_colors(text@),
{
    let chars = chars_of(text);
    let keyword = chars_of("@define-color");
    let n = chars.len();
    let mut r: Vec<(String, String)> = Vec::new();
    let mut line: Vec<char> = Vec::new();
    let mut i: usize = 0;
    while i < n
        invariant
            n == chars.len(),
            chars@ == text@,
            keyword@ == define_color(),
            i <= n,
            split_lines(chars@.subrange(0, i as int)).1 == line@,
            pairs_view(r@) == definitions(split_lines(chars@.subrange(0, i as int)).0),
        decreases n - i,
    {
        let c = chars[i];
        assert(chars@.subrange(0, i + 1).drop_last() =~= chars@.subrange(0, i as int));
        if c == '\n' {
            let found = line_definition(&line, &keyword);
            let ghost before = r@;
            match found {
                Some(p) => {
                    r.push(p);
                    assert(pairs_view(r@) =~= pairs_view(before).push((p.0@, p.1@)));
                },
                None => {},
            }
            let ghost done = split_lines(chars@.subrange(0, i as int)).0.push(line@);
            assert(done.drop_last() =~= split_lines(chars@.subrange(0, i as int)).0);
            assert(pairs_view(r@) =~= definitions(done));
            line = Vec::new();
            assert(line@ =~= Seq::<char>::empty());
        } else {
            line.push(c);
        }
        i = i + 1;
    }
    assert(chars@.subrange(0, n as int) =~= text@);
    let found = line_definition(&line, &keyword);
    let ghost before = r@;
    let ghost all = split_lines(text@).0.push(line@);
    assert(all.drop_last() =~= split_lines(text@).0);
    match found {
        Some(p) => {
            r.push(p);
            assert(pairs_view(r@) =~= pairs_view(before).push((p.0@, p.1@)));
        },
        None => {},
    }
    assert(pairs_view(r@) =~= definitions(all));
    r
}

} // verus!
